//! The outside primitives this library builds on: Ed25519 signing and
//! verification, PKCS#8 / SPKI key containers, base64, and the system RNG.
//!
//! Every function here makes one outside call; its contract states what the
//! outside crate documents about that call.
use vstd::prelude::*;
use base64::Engine;
use ed25519_dalek::pkcs8::{DecodePrivateKey, DecodePublicKey, EncodePrivateKey, EncodePublicKey};
use ed25519_dalek::{Signer, Verifier};
use rand::RngCore;

verus! {

/// Length of an Ed25519 secret seed.
pub const SEED_LEN: usize = 32;

/// Length of an Ed25519 public key.
pub const PUBLIC_KEY_LEN: usize = 32;

/// Length of an Ed25519 signature.
pub const SIGNATURE_LEN: usize = 64;

/// pkcs8's `Error`, carried through opaque where a key container fails.
#[verifier::external_type_specification]
#[verifier::external_body]
pub struct ExPkcs8Error(pkcs8::Error);

/// spki's `Error`, carried through opaque where a public key encoding fails.
#[verifier::external_type_specification]
#[verifier::external_body]
pub struct ExSpkiError(pkcs8::spki::Error);

/// base64's `DecodeError`, carried through opaque where text does not decode.
#[verifier::external_type_specification]
#[verifier::external_body]
pub struct ExDecodeError(base64::DecodeError);

/// The standard base64 text (RFC 4648 alphabet, `=` padding) of some bytes.
pub uninterp spec fn base64_of(b: Seq<u8>) -> Seq<u8>;

/// The Ed25519 public key derived from a 32-byte seed.
pub uninterp spec fn ed25519_public_of(seed: Seq<u8>) -> Seq<u8>;

/// The Ed25519 signature made with a 32-byte seed over a message.
pub uninterp spec fn ed25519_signature(seed: Seq<u8>, msg: Seq<u8>) -> Seq<u8>;

/// Whether Ed25519 verification accepts a signature over a message under a public key.
pub uninterp spec fn ed25519_accepts(public: Seq<u8>, msg: Seq<u8>, sig: Seq<u8>) -> bool;

/// The unencrypted PKCS#8 PEM text (LF line endings) of the key with a given seed.
pub uninterp spec fn pkcs8_pem_of(seed: Seq<u8>) -> Seq<char>;

/// The seed of the key that a PKCS#8 PEM text holds, or `None` where the text
/// is no such key.
pub uninterp spec fn pkcs8_seed_of(pem: Seq<char>) -> Option<Seq<u8>>;

/// A byte of the standard base64 alphabet, or the padding byte `=`.
pub open spec fn is_base64_byte(c: u8) -> bool {
    (65 <= c <= 90) || (97 <= c <= 122) || (48 <= c <= 57) || c == 43 || c == 47 || c == 61
}

/// The DER header of an Ed25519 SubjectPublicKeyInfo (RFC 8410): the key's
/// 32 bytes follow it directly.
pub open spec fn spki_ed25519_header() -> Seq<u8> {
    seq![0x30u8, 0x2a, 0x30, 0x05, 0x06, 0x03, 0x2b, 0x65, 0x70, 0x03, 0x21, 0x00]
}

/// Relies on base64's `STANDARD.encode`: padded text, four bytes for each
/// started group of three, drawn from the standard alphabet.
#[verifier::external_body]
pub(crate) fn encode_base64(b: &Vec<u8>) -> (r: Vec<u8>)
    requires
        b@.len() <= usize::MAX / 2,
    ensures
        r@ == base64_of(b@),
        r@.len() == 4 * ((b@.len() + 2) / 3),
        forall|i: int| 0 <= i < r@.len() ==> is_base64_byte(#[trigger] r@[i]),
{
    base64::engine::general_purpose::STANDARD.encode(b).into_bytes()
}

/// Relies on base64's `STANDARD.decode`, whose padding mode is canonical and
/// which refuses trailing bits: it accepts exactly the standard text of some
/// bytes, and gives back those bytes.
#[verifier::external_body]
pub(crate) fn decode_base64(s: &Vec<u8>) -> (r: Result<Vec<u8>, base64::DecodeError>)
    ensures
        r is Ok ==> base64_of(r->Ok_0@) == s@,
        forall|x: Seq<u8>| base64_of(x) == s@ ==> r is Ok && r->Ok_0@ == x,
{
    base64::engine::general_purpose::STANDARD.decode(s)
}

/// Relies on ed25519-dalek's `Signer::sign` for `SigningKey`: the 64-byte
/// signature that the seed and the message determine.
#[verifier::external_body]
pub(crate) fn sign_message(seed: &Vec<u8>, msg: &Vec<u8>) -> (r: Vec<u8>)
    requires
        seed@.len() == SEED_LEN,
    ensures
        r@ == ed25519_signature(seed@, msg@),
        r@.len() == SIGNATURE_LEN,
{
    let bytes: [u8; 32] = seed.as_slice().try_into().unwrap();
    ed25519_dalek::SigningKey::from_bytes(&bytes).sign(msg).to_bytes().to_vec()
}

/// Relies on ed25519-dalek's `VerifyingKey::from_bytes` and `Verifier::verify`:
/// false where the key bytes are no valid point; and a signature made with a
/// seed over a message is accepted under that seed's public key.
#[verifier::external_body]
pub(crate) fn verify_message(public: &Vec<u8>, msg: &Vec<u8>, sig: &Vec<u8>) -> (r: bool)
    requires
        public@.len() == PUBLIC_KEY_LEN,
        sig@.len() == SIGNATURE_LEN,
    ensures
        r == ed25519_accepts(public@, msg@, sig@),
        forall|seed: Seq<u8>|
            seed.len() == SEED_LEN && public@ == ed25519_public_of(seed) && sig@
                == #[trigger] ed25519_signature(seed, msg@) ==> r,
{
    let pk: [u8; 32] = public.as_slice().try_into().unwrap();
    let sg: [u8; 64] = sig.as_slice().try_into().unwrap();
    match ed25519_dalek::VerifyingKey::from_bytes(&pk) {
        Ok(key) => key.verify(msg, &ed25519_dalek::Signature::from_bytes(&sg)).is_ok(),
        Err(_) => false,
    }
}

/// Relies on pkcs8's `EncodePrivateKey::to_pkcs8_pem` for ed25519-dalek's
/// `SigningKey`, with LF line endings: the key is of fixed size, so the DER
/// and PEM encoders never meet a length they refuse.
#[verifier::external_body]
pub(crate) fn private_key_pem(seed: &Vec<u8>) -> (r: Result<String, pkcs8::Error>)
    requires
        seed@.len() == SEED_LEN,
    ensures
        r is Ok,
        r matches Ok(s) ==> s@ == pkcs8_pem_of(seed@),
{
    let bytes: [u8; 32] = seed.as_slice().try_into().unwrap();
    let key = ed25519_dalek::SigningKey::from_bytes(&bytes);
    key.to_pkcs8_pem(pkcs8::LineEnding::LF).map(|pem| pem.as_str().to_string())
}

/// Relies on pkcs8's `DecodePrivateKey::from_pkcs8_pem` for ed25519-dalek's
/// `SigningKey`, and on `SigningKey::to_bytes`: the result depends on the text
/// alone, and the PEM text of a key decodes back to that key's seed.
#[verifier::external_body]
pub(crate) fn seed_from_pem(pem: &str) -> (r: Result<Vec<u8>, pkcs8::Error>)
    ensures
        r is Ok <==> pkcs8_seed_of(pem@) is Some,
        r matches Ok(v) ==> Some(v@) == pkcs8_seed_of(pem@),
        r matches Ok(v) ==> v@.len() == SEED_LEN,
        forall|seed: Seq<u8>|
            seed.len() == SEED_LEN && pem@ == #[trigger] pkcs8_pem_of(seed) ==> r is Ok
                && r->Ok_0@ == seed,
{
    ed25519_dalek::SigningKey::from_pkcs8_pem(pem).map(|key| key.to_bytes().to_vec())
}

/// Relies on spki's `EncodePublicKey::to_public_key_der` for ed25519-dalek's
/// `VerifyingKey`: the RFC 8410 header followed by the key bytes; the key is
/// of fixed size, so the encoder never fails.
#[verifier::external_body]
pub(crate) fn public_key_der(seed: &Vec<u8>) -> (r: Result<Vec<u8>, pkcs8::spki::Error>)
    requires
        seed@.len() == SEED_LEN,
    ensures
        r is Ok,
        r matches Ok(v) ==> v@ == spki_ed25519_header() + ed25519_public_of(seed@),
        r matches Ok(v) ==> v@.len() == 12 + PUBLIC_KEY_LEN,
{
    let bytes: [u8; 32] = seed.as_slice().try_into().unwrap();
    let key = ed25519_dalek::SigningKey::from_bytes(&bytes).verifying_key();
    key.to_public_key_der().map(|doc| doc.as_bytes().to_vec())
}

/// Relies on spki's `DecodePublicKey::from_public_key_der` for ed25519-dalek's
/// `VerifyingKey`: it accepts only the RFC 8410 header followed by the key
/// bytes, and accepts it for every key derived from a seed.
#[verifier::external_body]
pub(crate) fn public_key_from_der(der: &Vec<u8>) -> (r: Result<Vec<u8>, pkcs8::spki::Error>)
    ensures
        r matches Ok(v) ==> der@ == spki_ed25519_header() + v@ && v@.len() == PUBLIC_KEY_LEN,
        forall|seed: Seq<u8>|
            seed.len() == SEED_LEN && der@ == spki_ed25519_header() + #[trigger] ed25519_public_of(
                seed,
            ) ==> r is Ok && r->Ok_0@ == ed25519_public_of(seed),
{
    ed25519_dalek::VerifyingKey::from_public_key_der(der).map(|key| key.to_bytes().to_vec())
}

/// Relies on rand's `OsRng::try_fill_bytes`: 32 bytes from the operating
/// system's secure generator, or `None` where the generator fails.
#[verifier::external_body]
pub(crate) fn random_seed() -> (r: Option<Vec<u8>>)
    ensures
        r matches Some(v) ==> v@.len() == SEED_LEN,
{
    let mut seed = [0u8; 32];
    match rand::rngs::OsRng.try_fill_bytes(&mut seed) {
        Ok(()) => Some(seed.to_vec()),
        Err(_) => None,
    }
}

} // verus!
