//! Ed25519 signatures, checked against a public key and its address.

use vstd::prelude::*;
use vstd::string::StringSliceAdditionalSpecFns;

use crate::did::Did;
use crate::ecc::{address_of, did_of, ed25519_accepts, ed25519_check, KeyKind, PublicKey};

verus! {

/// Whether `sig` is an Ed25519 signature of `msg` under `key`, and `address` is the key's.
pub fn verify(msg: &str, address: &Did, sig: &[u8], key: &PublicKey) -> (r: bool)
    ensures
        r == (did_of(address_of(key@)) == *address && key@.kind == KeyKind::Ed25519
            && sig@.len() == 64 && ed25519_accepts(key@.bytes, msg.spec_bytes(), sig@)),
{
    if key.address() != *address {
        return false;
    }
    ed25519_check(key, msg.as_bytes(), sig)
}

} // verus!
