//! BIP-137 signed messages: the signed digest is the double SHA-256 of
//! `varint(24) ‖ "Bitcoin Signed Message:\n" ‖ varint(len(msg)) ‖ msg`, and a
//! signature is laid out as `v ‖ r ‖ s` with `v` offset by 27.

use vstd::prelude::*;
use vstd::string::StringSliceAdditionalSpecFns;

use crate::bytes::append_bytes;
use crate::did::Did;
use crate::ecc::{
    ecdsa_key_result, key_result, recover_hash, recovered_address, recovers_to, sha256, sha256_of,
    PublicKey, PublicKeyView,
};
use crate::error::Error;

verus! {

/// The low `k` bytes of `n`, least significant first.
pub open spec fn le_bytes(n: nat, k: nat) -> Seq<u8>
    decreases k,
{
    if k == 0 {
        Seq::empty()
    } else {
        seq![(n % 256) as u8] + le_bytes(n / 256, (k - 1) as nat)
    }
}

/// Bitcoin's variable-length encoding of an integer.
pub open spec fn varint(n: nat) -> Seq<u8> {
    if n < 253 {
        seq![n as u8]
    } else if n < 0x1_0000 {
        seq![253u8] + le_bytes(n, 2)
    } else if n < 0x1_0000_0000 {
        seq![254u8] + le_bytes(n, 4)
    } else {
        seq![255u8] + le_bytes(n, 8)
    }
}

/// The text that every signed message starts with.
pub open spec fn magic() -> Seq<u8> {
    "Bitcoin Signed Message:\n".spec_bytes()
}

/// The bytes that are hashed twice for `msg`.
pub open spec fn framed(msg: Seq<u8>) -> Seq<u8> {
    varint(magic().len()) + magic() + varint(msg.len()) + msg
}

/// The digest that is signed for `msg`.
pub open spec fn digest_of(msg: Seq<u8>) -> Seq<u8> {
    sha256_of(sha256_of(framed(msg)))
}

/// A `v ‖ r ‖ s` signature laid out as `r ‖ s ‖ (v - 27)`.
pub open spec fn normalized(sig: Seq<u8>) -> Seq<u8> {
    sig.skip(1).push((sig[0] - 27) as u8)
}

fn push_le(buf: &mut Vec<u8>, n: u64, k: u32)
    ensures
        final(buf)@ == old(buf)@ + le_bytes(n as nat, k as nat),
    decreases k,
{
    if k > 0 {
        buf.push((n % 256) as u8);
        push_le(buf, n / 256, k - 1);
        assert(final(buf)@ =~= old(buf)@ + le_bytes(n as nat, k as nat));
    } else {
        assert(final(buf)@ =~= old(buf)@ + le_bytes(n as nat, k as nat));
    }
}

/// Bitcoin's variable-length encoding of `n`: one byte below 253, else a marker
/// byte (253, 254, 255) and the value in 2, 4 or 8 little-endian bytes.
pub fn varint_buf_num(n: u64) -> (r: Vec<u8>)
    ensures
        r@ == varint(n as nat),
{
    let mut buf: Vec<u8> = Vec::new();
    if n < 253 {
        buf.push(n as u8);
    } else if n < 0x1_0000 {
        buf.push(253u8);
        push_le(&mut buf, n, 2);
    } else if n < 0x1_0000_0000 {
        buf.push(254u8);
        push_le(&mut buf, n, 4);
    } else {
        buf.push(255u8);
        push_le(&mut buf, n, 8);
    }
    assert(buf@ =~= varint(n as nat));
    buf
}

/// The double SHA-256 of the framed message.
pub fn magic_hash(msg: &str) -> (r: Vec<u8>)
    ensures
        r@ == digest_of(msg.spec_bytes()),
        r@.len() == 32,
{
    let magic_bytes = "Bitcoin Signed Message:\n".as_bytes();
    let msg_bytes = msg.as_bytes();
    let mut buf: Vec<u8> = Vec::new();
    let head = varint_buf_num(magic_bytes.len() as u64);
    append_bytes(&mut buf, head.as_slice());
    append_bytes(&mut buf, magic_bytes);
    let len = varint_buf_num(msg_bytes.len() as u64);
    append_bytes(&mut buf, len.as_slice());
    append_bytes(&mut buf, msg_bytes);
    assert(buf@ =~= framed(msg.spec_bytes()));
    let once = sha256(buf.as_slice());
    sha256(once.as_slice())
}

/// What recovering a key from a BIP-137 signature `v ‖ r ‖ s` of a digest gives.
pub open spec fn key_result_of(digest: Seq<u8>, sig: Seq<u8>) -> Result<PublicKeyView, Error> {
    if sig.len() != 65 {
        Err(Error::BadSignature)
    } else if sig[0] < 27 {
        Err(Error::BadRecoveryId)
    } else {
        ecdsa_key_result(digest, normalized(sig))
    }
}

/// Moves `v` from the front to the end and takes 27 off it.
fn normalize(sig: &[u8]) -> (r: Vec<u8>)
    requires
        sig@.len() == 65,
        sig@[0] >= 27,
    ensures
        r@ == normalized(sig@),
{
    let mut out: Vec<u8> = Vec::new();
    append_bytes(&mut out, &sig[1..65]);
    out.push(sig[0] - 27);
    assert(out@ =~= normalized(sig@));
    out
}

/// The public key that a BIP-137 signature `v ‖ r ‖ s` recovers for `msg`.
pub fn recover(msg: &str, sig: &[u8]) -> (r: Result<PublicKey, Error>)
    ensures
        key_result(r) == key_result_of(digest_of(msg.spec_bytes()), sig@),
{
    if sig.len() != 65 {
        return Err(Error::BadSignature);
    }
    if sig[0] < 27 {
        return Err(Error::BadRecoveryId);
    }
    let s = normalize(sig);
    let hash = magic_hash(msg);
    recover_hash(hash.as_slice(), s.as_slice())
}

/// Whether a BIP-137 signature of `msg` was made by the key whose address is `address`.
pub fn verify(msg: &str, address: &Did, sig: &[u8]) -> (r: bool)
    ensures
        r == (sig@.len() == 65 && sig@[0] >= 27 && recovered_address(
            digest_of(msg.spec_bytes()),
            normalized(sig@),
        ) == Some(*address)),
{
    if sig.len() != 65 || sig[0] < 27 {
        return false;
    }
    let s = normalize(sig);
    let hash = magic_hash(msg);
    recovers_to(hash.as_slice(), s.as_slice(), address)
}

} // verus!
