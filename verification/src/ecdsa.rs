//! ECDSA over secp256k1, as far as the signature builtin needs it: keys,
//! messages and signatures are byte strings, and the curve arithmetic is
//! `k256`'s.

use k256::ecdsa::signature::Verifier;
use k256::ecdsa::VerifyingKey;
use vstd::prelude::*;

verus! {

/// Whether `k256` reads a public key from `bytes`, taken as the SEC1
/// encoding of a point of secp256k1.
pub uninterp spec fn is_sec1_public_key(bytes: Seq<u8>) -> bool;

/// Whether `k256` accepts `signature`, the 64 bytes of `r` then `s`, as an
/// ECDSA signature of the SHA-256 digest of `message` under the SEC1 encoded
/// `public_key`. False where the key or the signature is not well formed.
pub uninterp spec fn ecdsa_verifies(
    public_key: Seq<u8>,
    message: Seq<u8>,
    signature: Seq<u8>,
) -> bool;

/// `k256::ecdsa::VerifyingKey::from_sec1_bytes`: says whether it returns a
/// key for `bytes`. Its answer depends on the bytes alone.
#[verifier::external_body]
pub(crate) fn sec1_public_key_parses(bytes: &[u8]) -> (ok: bool)
    ensures
        ok == is_sec1_public_key(bytes@),
{
    VerifyingKey::from_sec1_bytes(bytes).is_ok()
}

/// `Verifier::verify` of `k256::ecdsa::VerifyingKey`, on the key that
/// `VerifyingKey::from_sec1_bytes` reads from `public_key` and the signature
/// that `Signature::from_slice` reads from `signature`: says whether all
/// three succeed. The answer depends on the three byte strings alone.
#[verifier::external_body]
pub(crate) fn ecdsa_verify(public_key: &[u8], message: &[u8], signature: &[u8]) -> (ok: bool)
    ensures
        ok == ecdsa_verifies(public_key@, message@, signature@),
{
    match (
        VerifyingKey::from_sec1_bytes(public_key),
        k256::ecdsa::Signature::from_slice(signature),
    ) {
        (Ok(key), Ok(parsed)) => key.verify(message, &parsed).is_ok(),
        _ => false,
    }
}

/// An ECDSA signature in its fixed-size encoding: the bytes of `r`, then
/// those of `s`. Bytes that are no such encoding verify nothing.
#[derive(Debug, PartialEq, Eq)]
pub struct Signature {
    bytes: Vec<u8>,
}

impl View for Signature {
    type V = Seq<u8>;

    closed spec fn view(&self) -> Seq<u8> {
        self.bytes@
    }
}

impl Signature {
    /// The signature with the given encoding.
    pub fn from_bytes(bytes: Vec<u8>) -> (signature: Signature)
        ensures
            signature@ == bytes@,
    {
        Signature { bytes }
    }

    /// The encoding of the signature.
    pub fn as_bytes(&self) -> (bytes: &[u8])
        ensures
            bytes@ == self@,
    {
        self.bytes.as_slice()
    }
}

impl Clone for Signature {
    fn clone(&self) -> (copy: Self)
        ensures
            copy@ == self@,
    {
        Signature { bytes: self.bytes.clone() }
    }
}

} // verus!
