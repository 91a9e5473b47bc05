//! Content-authenticity signing for static documents: key material, an
//! embedded signature marker, and the DNS record that publishes the key.
pub mod crypto;
pub mod marker;
pub mod record;
pub mod signer;
pub mod text;
