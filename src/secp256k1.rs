//! Raw ECDSA over secp256k1: the signed digest is the Keccak-256 of the message.

use vstd::prelude::*;
use vstd::string::StringSliceAdditionalSpecFns;

use crate::did::Did;
use crate::ecc::{
    ecdsa_key_result, ecdsa_signature_of, keccak256, keccak256_of, key_result, recover_hash,
    recovered_address, recovers_to, PublicKey, SecretKey,
};
use crate::error::Error;

verus! {

/// The digest that is signed for `msg`.
pub open spec fn digest_of(msg: Seq<u8>) -> Seq<u8> {
    keccak256_of(msg)
}

/// Signs the Keccak-256 of `msg`: 65 bytes `r ‖ s ‖ v`.
pub fn sign_raw(key: &SecretKey, msg: &str) -> (r: Vec<u8>)
    ensures
        ecdsa_signature_of(key@, digest_of(msg.spec_bytes())) == Some(r@),
        r@.len() == 65,
        recovered_address(digest_of(msg.spec_bytes()), r@) == Some(
            crate::ecc::secret_address(key@),
        ),
{
    let h = keccak256(msg.as_bytes());
    key.sign_digest(h.as_slice())
}

/// The public key that `sig` recovers for `msg`.
pub fn recover(msg: &str, sig: &[u8]) -> (r: Result<PublicKey, Error>)
    ensures
        key_result(r) == ecdsa_key_result(digest_of(msg.spec_bytes()), sig@),
{
    let h = keccak256(msg.as_bytes());
    recover_hash(h.as_slice(), sig)
}

/// Whether `sig` is a signature of `msg` by the key whose address is `address`.
pub fn verify(msg: &str, address: &Did, sig: &[u8]) -> (r: bool)
    ensures
        r == (recovered_address(digest_of(msg.spec_bytes()), sig@) == Some(*address)),
{
    let h = keccak256(msg.as_bytes());
    recovers_to(h.as_slice(), sig, address)
}

} // verus!
