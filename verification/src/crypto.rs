//! SHA-256 and ECDSA over P-256, on bytes.

use p256::ecdsa::signature::hazmat::PrehashVerifier;
use sha2::Digest;
use vstd::prelude::*;

verus! {

/// Whether P-256 accepts bytes as a public key in SEC1 form.
pub uninterp spec fn p256_key(bytes: Seq<u8>) -> bool;

/// Whether bytes are an ECDSA signature over P-256 in DER.
pub uninterp spec fn p256_signature(bytes: Seq<u8>) -> bool;

/// Whether a signature in DER is one of a digest by the holder of a key in SEC1 form.
pub uninterp spec fn p256_verifies(key: Seq<u8>, digest: Seq<u8>, signature: Seq<u8>) -> bool;

/// The SHA-256 digest of a message.
pub uninterp spec fn sha256_of(message: Seq<u8>) -> Seq<u8>;

/// The error of the `signature` crate; it carries nothing that is read here.
#[verifier::external_type_specification]
#[verifier::external_body]
pub struct ExSignatureError(p256::ecdsa::Error);

/// `VerifyingKey::from_sec1_bytes` of p256: whether it accepts the bytes depends on them alone.
#[verifier::external_body]
pub(crate) fn is_p256_key(bytes: &[u8]) -> (r: bool)
    ensures
        r == p256_key(bytes@),
{
    p256::ecdsa::VerifyingKey::from_sec1_bytes(bytes).is_ok()
}

/// `Signature::from_der` of p256: whether it accepts the bytes depends on them alone.
#[verifier::external_body]
pub(crate) fn is_p256_signature(bytes: &[u8]) -> (r: bool)
    ensures
        r == p256_signature(bytes@),
{
    p256::ecdsa::Signature::from_der(bytes).is_ok()
}

/// `VerifyingKey::verify_prehash` of p256, on a key and a signature given as bytes: whether it
/// accepts depends on key, digest and signature alone, and it needs both to be well-formed.
#[verifier::external_body]
pub(crate) fn verify_prehash(key: &[u8], digest: &[u8], signature: &[u8]) -> (r: Result<(), p256::ecdsa::Error>)
    ensures
        r is Ok == p256_verifies(key@, digest@, signature@),
        r is Ok ==> p256_key(key@) && p256_signature(signature@),
{
    let signature = p256::ecdsa::Signature::from_der(signature)?;
    p256::ecdsa::VerifyingKey::from_sec1_bytes(key)?.verify_prehash(digest, &signature)
}

/// `Sha256::digest` of sha2: the digest depends on the message alone.
#[verifier::external_body]
pub(crate) fn sha256(message: &[u8]) -> (d: [u8; 32])
    ensures
        d@ == sha256_of(message@),
{
    sha2::Sha256::digest(message).into()
}

} // verus!
