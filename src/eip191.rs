//! EIP-191 personal messages: the signed digest is the Keccak-256 of
//! `"\x19Ethereum Signed Message:\n" ‖ decimal(len(msg)) ‖ msg`.

use vstd::prelude::*;
use vstd::string::StringSliceAdditionalSpecFns;

use crate::bytes::append_bytes;
use crate::did::Did;
use crate::ecc::{
    ecdsa_key_result, ecdsa_signature_of, keccak256, keccak256_of, key_result, recover_hash,
    recovered_address, recovers_to, PublicKey, SecretKey,
};
use crate::error::Error;
use crate::text::{decimal, dec_text};

verus! {

/// The bytes that are hashed for `msg`.
pub open spec fn prefixed(msg: Seq<u8>) -> Seq<u8> {
    "\x19Ethereum Signed Message:\n".spec_bytes() + vstd::utf8::encode_utf8(
        dec_text(msg.len()),
    ) + msg
}

/// The digest that is signed for `msg`.
pub open spec fn digest_of(msg: Seq<u8>) -> Seq<u8> {
    keccak256_of(prefixed(msg))
}

/// The Keccak-256 of the prefixed message.
pub fn hash(msg: &str) -> (r: Vec<u8>)
    ensures
        r@ == digest_of(msg.spec_bytes()),
        r@.len() == 32,
{
    let m = msg.as_bytes();
    let mut buf: Vec<u8> = Vec::new();
    append_bytes(&mut buf, "\x19Ethereum Signed Message:\n".as_bytes());
    let len_text = decimal(m.len() as u128);
    append_bytes(&mut buf, len_text.as_str().as_bytes());
    append_bytes(&mut buf, m);
    assert(buf@ =~= prefixed(msg.spec_bytes()));
    keccak256(buf.as_slice())
}

/// Signs `msg` as an EIP-191 personal message: 65 bytes `r ‖ s ‖ v`.
pub fn sign(key: &SecretKey, msg: &str) -> (r: Vec<u8>)
    ensures
        ecdsa_signature_of(key@, digest_of(msg.spec_bytes())) == Some(r@),
        r@.len() == 65,
{
    let h = hash(msg);
    key.sign_digest(h.as_slice())
}

/// The public key that `sig` recovers for `msg`.
pub fn recover(msg: &str, sig: &[u8]) -> (r: Result<PublicKey, Error>)
    ensures
        key_result(r) == ecdsa_key_result(digest_of(msg.spec_bytes()), sig@),
{
    let h = hash(msg);
    recover_hash(h.as_slice(), sig)
}

/// Whether `sig` is an EIP-191 signature of `msg` by the key whose address is `address`.
pub fn verify(msg: &str, address: &Did, sig: &[u8]) -> (r: bool)
    ensures
        r == (recovered_address(digest_of(msg.spec_bytes()), sig@) == Some(*address)),
{
    let h = hash(msg);
    recovers_to(h.as_slice(), sig, address)
}

} // verus!
