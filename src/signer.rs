//! Key generation, signing of documents and of batches of files, key loading,
//! and the relying party's verification.
use vstd::prelude::*;
use vstd::pervasive::unreached;
use crate::crypto::{
    base64_of, decode_base64, pkcs8_seed_of, ed25519_accepts, ed25519_public_of, ed25519_signature,
    encode_base64, pkcs8_pem_of, private_key_pem, public_key_der, public_key_from_der,
    random_seed, seed_from_pem, sign_message, spki_ed25519_header,
    verify_message, PUBLIC_KEY_LEN, SEED_LEN, SIGNATURE_LEN,
};
use crate::marker::{
    embed, embed_marker, extract, extract_marker, is_signature_text, lemma_extract_embed,
    make_marker, marker_text,
};
use crate::record::{
    dns_content, dns_record, lemma_dns_record_injective, make_dns_content, make_dns_record,
    record_key_text,
};

verus! {

/// What key generation produces: the private key file's text and the public
/// key's DNS record.
pub struct KeyArtifacts {
    /// Unencrypted PKCS#8 PEM text of the private key.
    pub private_key_pem: String,
    /// The full TXT record line.
    pub dns_record: Vec<u8>,
    /// The record's quoted content alone.
    pub dns_content: Vec<u8>,
}

/// Why no keypair was generated.
#[derive(Debug, Clone, Copy, PartialEq, Eq, Structural)]
pub enum KeygenError {
    /// The system's secure generator gave no random seed.
    Randomness,
}

/// Why no signing key could be had.
#[derive(Debug, Clone, Copy, PartialEq, Eq, Structural)]
pub enum KeyError {
    /// Neither a key file nor the environment secret was given.
    NotFound,
    /// The text given is no PKCS#8 PEM Ed25519 private key.
    Decode,
}

/// Why a signed document was not accepted.
#[derive(Debug, Clone, Copy, PartialEq, Eq, Structural)]
pub enum VerifyError {
    /// No marker stands at the document's insertion point.
    MarkerNotFound,
    /// The marker's signature text is not the base64 text of 64 bytes.
    BadSignatureText,
    /// The signature does not verify over the reconstructed document.
    Rejected,
}

/// What became of one file of a batch.
#[derive(Debug, PartialEq, Eq)]
pub enum FileOutcome {
    /// The file does not exist; it was skipped.
    Missing,
    /// The file's new content, with the marker spliced in.
    Signed(Vec<u8>),
    /// The file has neither `</head>` nor `<head>`; it stays as it is.
    AnchorNotFound,
}

/// The base64 text of the public key's DER (SubjectPublicKeyInfo) encoding.
pub open spec fn public_key_text(seed: Seq<u8>) -> Seq<u8> {
    base64_of(spki_ed25519_header() + ed25519_public_of(seed))
}

/// The base64 text of the signature that a seed makes over a document.
pub open spec fn signature_text(seed: Seq<u8>, doc: Seq<u8>) -> Seq<u8> {
    base64_of(ed25519_signature(seed, doc))
}

/// The signed form of a document, or `None` where it has no anchor.
pub open spec fn signed_form(seed: Seq<u8>, doc: Seq<u8>) -> Option<Seq<u8>> {
    embed(doc, marker_text(signature_text(seed, doc)))
}

/// `signed` is what signing `doc` with `seed` produces.
pub open spec fn signed_by(seed: Seq<u8>, doc: Seq<u8>, signed: Seq<u8>) -> bool {
    &&& seed.len() == SEED_LEN
    &&& ed25519_signature(seed, doc).len() == SIGNATURE_LEN
    &&& is_signature_text(signature_text(seed, doc))
    &&& signed_form(seed, doc) == Some(signed)
}

/// A relying party accepts `signed` under `public`: a marker stands at its
/// insertion point, carries the base64 text of a 64-byte signature, and that
/// signature verifies over the document without the marker.
pub open spec fn accepted(public: Seq<u8>, signed: Seq<u8>) -> bool {
    match extract(signed) {
        Some((doc, text)) => exists|sig: Seq<u8>|
            sig.len() == SIGNATURE_LEN && #[trigger] base64_of(sig) == text && ed25519_accepts(
                public,
                doc,
                sig,
            ),
        None => false,
    }
}

/// The key text used: the key file's, where one was given, else the
/// environment secret's.
pub open spec fn chosen_pem(file_pem: Option<String>, env_pem: Option<String>) -> Option<Seq<char>> {
    match file_pem {
        Some(f) => Some(f@),
        None => match env_pem {
            Some(e) => Some(e@),
            None => None,
        },
    }
}

/// The outcome that a batch owes for one file (`None`: the file is missing).
pub open spec fn outcome_for(seed: Seq<u8>, file: Option<Seq<u8>>, o: FileOutcome) -> bool {
    match file {
        None => o is Missing,
        Some(doc) => match signed_form(seed, doc) {
            Some(t) => o matches FileOutcome::Signed(v) && v@ == t,
            None => o is AnchorNotFound,
        },
    }
}

/// Builds the key file text and the DNS record for the key with this seed.
pub fn keypair_from_seed(seed: &Vec<u8>) -> (a: KeyArtifacts)
    requires
        seed@.len() == SEED_LEN,
    ensures
        a.private_key_pem@ == pkcs8_pem_of(seed@),
        a.dns_record@ == dns_record(public_key_text(seed@)),
        a.dns_content@ == dns_content(public_key_text(seed@)),
{
    let pem = match private_key_pem(seed) {
        Ok(p) => p,
        Err(_) => unreached(),
    };
    let der = match public_key_der(seed) {
        Ok(d) => d,
        Err(_) => unreached(),
    };
    let key_text = encode_base64(&der);
    KeyArtifacts {
        private_key_pem: pem,
        dns_record: make_dns_record(&key_text),
        dns_content: make_dns_content(&key_text),
    }
}

/// Draws a fresh seed from the system's secure generator and builds the key
/// file text and the DNS record for it; fails only where the generator does.
pub fn generate_keypair() -> (r: Result<KeyArtifacts, KeygenError>)
    ensures
        r matches Ok(a) ==> exists|seed: Seq<u8>|
            seed.len() == SEED_LEN && a.private_key_pem@ == #[trigger] pkcs8_pem_of(seed)
                && a.dns_record@ == dns_record(public_key_text(seed)) && a.dns_content@
                == dns_content(public_key_text(seed)),
{
    match random_seed() {
        Some(seed) => Ok(keypair_from_seed(&seed)),
        None => Err(KeygenError::Randomness),
    }
}

/// The signing seed from key text: the key file's text where one was given,
/// else the environment secret.
pub fn load_signing_seed(file_pem: Option<String>, env_pem: Option<String>) -> (r: Result<
    Vec<u8>,
    KeyError,
>)
    ensures
        (file_pem is None && env_pem is None) <==> r == Err::<Vec<u8>, KeyError>(
            KeyError::NotFound,
        ),
        r matches Ok(s) ==> s@.len() == SEED_LEN,
        r == Err::<Vec<u8>, KeyError>(KeyError::Decode) <==> (chosen_pem(file_pem, env_pem) matches Some(
            p,
        ) && pkcs8_seed_of(p) is None),
        r matches Ok(s) ==> (chosen_pem(file_pem, env_pem) matches Some(p) && pkcs8_seed_of(p)
            == Some(s@)),
        forall|seed: Seq<u8>|
            seed.len() == SEED_LEN && chosen_pem(file_pem, env_pem) == Some(
                #[trigger] pkcs8_pem_of(seed),
            ) ==> r is Ok && r->Ok_0@ == seed,
{
    let pem = match file_pem {
        Some(f) => f,
        None => match env_pem {
            Some(e) => e,
            None => {
                return Err(KeyError::NotFound);
            },
        },
    };
    match seed_from_pem(pem.as_str()) {
        Ok(s) => Ok(s),
        Err(_) => Err(KeyError::Decode),
    }
}

/// Signs the exact bytes of `doc` and splices the marker in; `None` where the
/// document has no anchor. The marker comes out again exactly, giving back
/// `doc` and the signature's text.
pub fn sign_document(seed: &Vec<u8>, doc: &Vec<u8>) -> (r: Option<Vec<u8>>)
    requires
        seed@.len() == SEED_LEN,
    ensures
        r matches Some(t) ==> signed_form(seed@, doc@) == Some(t@),
        r is None <==> signed_form(seed@, doc@) is None,
        r matches Some(t) ==> signed_by(seed@, doc@, t@),
        r matches Some(t) ==> extract(t@) == Some((doc@, signature_text(seed@, doc@))),
{
    let sig = sign_message(seed, doc);
    let text = encode_base64(&sig);
    let marker = make_marker(&text);
    let r = embed_marker(doc, &marker);
    proof {
        if r is Some {
            lemma_extract_embed(doc@, text@);
        }
    }
    r
}

/// Signs each file of a batch on its own: a missing file is skipped, a file
/// without an anchor is reported and left alone, and neither stops the rest.
pub fn sign_batch(seed: &Vec<u8>, files: &Vec<Option<Vec<u8>>>) -> (r: Vec<FileOutcome>)
    requires
        seed@.len() == SEED_LEN,
    ensures
        r@.len() == files@.len(),
        forall|i: int|
            0 <= i < files@.len() ==> outcome_for(
                seed@,
                match files@[i] {
                    Some(d) => Some(d@),
                    None => None,
                },
                #[trigger] r@[i],
            ),
{
    let mut out: Vec<FileOutcome> = Vec::new();
    let mut i: usize = 0;
    while i < files.len()
        invariant
            seed@.len() == SEED_LEN,
            i <= files@.len(),
            out@.len() == i,
            forall|j: int|
                0 <= j < i ==> outcome_for(
                    seed@,
                    match files@[j] {
                        Some(d) => Some(d@),
                        None => None,
                    },
                    #[trigger] out@[j],
                ),
        decreases files@.len() - i,
    {
        let o = match &files[i] {
            None => FileOutcome::Missing,
            Some(doc) => match sign_document(seed, doc) {
                Some(t) => FileOutcome::Signed(t),
                None => FileOutcome::AnchorNotFound,
            },
        };
        out.push(o);
        i = i + 1;
    }
    out
}

/// The relying party's check of a signed document against a public key. It is
/// accepted exactly when `accepted` holds, and a document that a seed signed
/// is accepted under that seed's public key.
pub fn verify_document(public: &Vec<u8>, signed: &Vec<u8>) -> (r: Result<(), VerifyError>)
    requires
        public@.len() == PUBLIC_KEY_LEN,
    ensures
        r is Ok <==> accepted(public@, signed@),
        r == Err::<(), VerifyError>(VerifyError::MarkerNotFound) <==> extract(signed@) is None,
        forall|seed: Seq<u8>, doc: Seq<u8>|
            #[trigger] signed_by(seed, doc, signed@) && public@ == ed25519_public_of(seed)
                ==> r is Ok,
{
    let (doc, text) = match extract_marker(signed) {
        Some(v) => v,
        None => {
            proof {
                assert forall|seed: Seq<u8>, doc: Seq<u8>|
                    #[trigger] signed_by(seed, doc, signed@) implies false by {
                    lemma_extract_embed(doc, signature_text(seed, doc));
                }
            }
            return Err(VerifyError::MarkerNotFound);
        },
    };
    proof {
        assert forall|seed: Seq<u8>, d: Seq<u8>| #[trigger] signed_by(seed, d, signed@) implies d
            == doc@ && text@ == signature_text(seed, d) by {
            lemma_extract_embed(d, signature_text(seed, d));
        }
    }
    let sig = match decode_base64(&text) {
        Ok(s) => s,
        Err(_) => {
            return Err(VerifyError::BadSignatureText);
        },
    };
    if sig.len() != SIGNATURE_LEN {
        proof {
            assert forall|x: Seq<u8>| x.len() == SIGNATURE_LEN implies #[trigger] base64_of(x)
                != text@ by {}
        }
        return Err(VerifyError::BadSignatureText);
    }
    let ok = verify_message(public, &doc, &sig);
    proof {
        assert forall|x: Seq<u8>| #[trigger] base64_of(x) == text@ implies x == sig@ by {}
    }
    if ok {
        Ok(())
    } else {
        Err(VerifyError::Rejected)
    }
}

/// The public key that a DNS record line publishes, or `None` where the line is
/// not such a record or its key text does not decode to an Ed25519 key. The
/// record built for a seed gives back that seed's public key.
pub fn public_key_from_record(record: &Vec<u8>) -> (r: Option<Vec<u8>>)
    ensures
        r matches Some(k) ==> k@.len() == PUBLIC_KEY_LEN && record@ == dns_record(
            base64_of(spki_ed25519_header() + k@),
        ),
        forall|seed: Seq<u8>|
            seed.len() == SEED_LEN && record@ == dns_record(#[trigger] public_key_text(seed))
                ==> r is Some && r->Some_0@ == ed25519_public_of(seed),
{
    let text = match record_key_text(record) {
        Some(t) => t,
        None => {
            return None;
        },
    };
    proof {
        assert forall|seed: Seq<u8>| record@ == dns_record(#[trigger] public_key_text(seed))
            implies text@ == public_key_text(seed) by {
            lemma_dns_record_injective(text@, public_key_text(seed));
        }
    }
    let der = match decode_base64(&text) {
        Ok(d) => d,
        Err(_) => {
            return None;
        },
    };
    match public_key_from_der(&der) {
        Ok(k) => Some(k),
        Err(_) => None,
    }
}

} // verus!
