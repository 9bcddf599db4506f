//! Keys, hashes and addresses, over secp256k1 and Ed25519.

use ed25519_dalek::Verifier;
use sha2::Digest;
use vstd::prelude::*;
use vstd::string::StringSliceAdditionalSpecFns;

use crate::did::Did;
use crate::error::Error;

verus! {

/// The Keccak-256 digest of some bytes.
pub uninterp spec fn keccak256_of(data: Seq<u8>) -> Seq<u8>;

/// The SHA-256 digest of some bytes.
pub uninterp spec fn sha256_of(data: Seq<u8>) -> Seq<u8>;

/// The uncompressed public key of a secp256k1 secret key, if the bytes are a valid secret key.
pub uninterp spec fn secp256k1_public_of(secret: Seq<u8>) -> Option<Seq<u8>>;

/// The recoverable ECDSA signature `r ‖ s ‖ v` of a 32-byte digest, if the key is valid.
pub uninterp spec fn ecdsa_signature_of(secret: Seq<u8>, digest: Seq<u8>) -> Option<Seq<u8>>;

/// The uncompressed public key that a recoverable signature of a digest recovers, if any.
pub uninterp spec fn ecdsa_recovered(digest: Seq<u8>, sig: Seq<u8>) -> Option<Seq<u8>>;

/// The uncompressed form of a serialized secp256k1 public key, if the bytes are one.
pub uninterp spec fn secp256k1_parsed(bytes: Seq<u8>) -> Option<Seq<u8>>;

/// Whether an Ed25519 signature of a message is valid under a 32-byte public key.
pub uninterp spec fn ed25519_accepts(key: Seq<u8>, msg: Seq<u8>, sig: Seq<u8>) -> bool;

/// The bytes that Bitcoin-alphabet base58 text spells, if it is valid.
pub uninterp spec fn bs58_decoded(text: Seq<char>) -> Option<Seq<u8>>;

/// Relies on `sha3::Keccak256`: the 32-byte Keccak-256 digest of the input.
#[verifier::external_body]
pub(crate) fn keccak256(data: &[u8]) -> (r: Vec<u8>)
    ensures
        r@ == keccak256_of(data@),
        r@.len() == 32,
{
    sha3::Keccak256::digest(data).to_vec()
}

/// Relies on `sha2::Sha256`: the 32-byte SHA-256 digest of the input.
#[verifier::external_body]
pub(crate) fn sha256(data: &[u8]) -> (r: Vec<u8>)
    ensures
        r@ == sha256_of(data@),
        r@.len() == 32,
{
    sha2::Sha256::digest(data).to_vec()
}

/// Relies on `libsecp256k1::SecretKey::random`: 32 bytes of a valid secret key,
/// drawn from the thread's random number generator.
#[verifier::external_body]
fn random_secret() -> (r: Vec<u8>)
    ensures
        r@.len() == 32,
        secp256k1_public_of(r@) is Some,
{
    libsecp256k1::SecretKey::random(&mut rand::thread_rng()).serialize().to_vec()
}

/// Relies on `libsecp256k1::PublicKey::from_secret_key`: the 65-byte uncompressed
/// public key of a secret key, or `None` where the bytes are no valid secret key.
#[verifier::external_body]
fn secp256k1_public(secret: &[u8]) -> (r: Option<Vec<u8>>)
    requires
        secret@.len() == 32,
    ensures
        r matches Some(k) ==> secp256k1_public_of(secret@) == Some(k@) && k@.len() == 65 && k@[0]
            == 4,
        r is None ==> secp256k1_public_of(secret@) is None,
{
    let sk = libsecp256k1::SecretKey::parse_slice(secret).ok()?;
    Some(libsecp256k1::PublicKey::from_secret_key(&sk).serialize().to_vec())
}

/// Relies on `libsecp256k1::sign`: the 64-byte signature of a 32-byte digest followed by
/// its recovery id, or `None` where the bytes are no valid secret key. A signature made
/// by a key recovers that key's public key.
#[verifier::external_body]
fn ecdsa_sign(secret: &[u8], digest: &[u8]) -> (r: Option<Vec<u8>>)
    requires
        secret@.len() == 32,
        digest@.len() == 32,
    ensures
        r matches Some(s) ==> ecdsa_signature_of(secret@, digest@) == Some(s@) && s@.len() == 65
            && s@[64] < 4 && ecdsa_recovered(digest@, s@) == secp256k1_public_of(secret@),
        r is None ==> ecdsa_signature_of(secret@, digest@) is None,
        r is None <==> secp256k1_public_of(secret@) is None,
{
    let sk = libsecp256k1::SecretKey::parse_slice(secret).ok()?;
    let msg = libsecp256k1::Message::parse_slice(digest).ok()?;
    let (sig, recid) = libsecp256k1::sign(&msg, &sk);
    let mut out = sig.serialize().to_vec();
    out.push(recid.serialize());
    Some(out)
}

/// Relies on `libsecp256k1::recover`: the 65-byte uncompressed public key that the
/// signature `r ‖ s` with recovery id `v` recovers for a 32-byte digest, or `None`.
#[verifier::external_body]
fn ecdsa_recover(digest: &[u8], sig: &[u8]) -> (r: Option<Vec<u8>>)
    requires
        digest@.len() == 32,
        sig@.len() == 65,
        sig@[64] < 4,
    ensures
        r matches Some(k) ==> ecdsa_recovered(digest@, sig@) == Some(k@) && k@.len() == 65
            && k@[0] == 4,
        r is None ==> ecdsa_recovered(digest@, sig@) is None,
{
    let msg = libsecp256k1::Message::parse_slice(digest).ok()?;
    let rs = libsecp256k1::Signature::parse_standard_slice(&sig[0..64]).ok()?;
    let id = libsecp256k1::RecoveryId::parse(sig[64]).ok()?;
    Some(libsecp256k1::recover(&msg, &rs, &id).ok()?.serialize().to_vec())
}

/// Relies on `libsecp256k1::PublicKey::parse_slice`: the uncompressed form of a
/// compressed or uncompressed serialized key, or `None` where the bytes are no key.
#[verifier::external_body]
fn secp256k1_parse(bytes: &[u8]) -> (r: Option<Vec<u8>>)
    ensures
        r matches Some(k) ==> secp256k1_parsed(bytes@) == Some(k@) && k@.len() == 65 && k@[0]
            == 4,
        r is None ==> secp256k1_parsed(bytes@) is None,
{
    let pk = libsecp256k1::PublicKey::parse_slice(bytes, None).ok()?;
    Some(pk.serialize().to_vec())
}

/// Relies on `ed25519_dalek::VerifyingKey::verify`: whether a 64-byte signature of a
/// message is valid under a 32-byte public key; `false` where the key is no curve point.
#[verifier::external_body]
fn ed25519_verify(key: &[u8], msg: &[u8], sig: &[u8]) -> (r: bool)
    requires
        key@.len() == 32,
        sig@.len() == 64,
    ensures
        r == ed25519_accepts(key@, msg@, sig@),
{
    let Ok(arr) = <[u8; 32]>::try_from(key) else { return false };
    let Ok(vk) = ed25519_dalek::VerifyingKey::from_bytes(&arr) else { return false };
    let Ok(s) = ed25519_dalek::Signature::from_slice(sig) else { return false };
    vk.verify(msg, &s).is_ok()
}

/// Relies on `bs58::decode`: the bytes that base58 text (Bitcoin alphabet) spells.
#[verifier::external_body]
fn bs58_decode(text: &str) -> (r: Option<Vec<u8>>)
    ensures
        r matches Some(b) ==> bs58_decoded(text@) == Some(b@),
        r is None ==> bs58_decoded(text@) is None,
{
    bs58::decode(text).into_vec().ok()
}

/// Hexadecimal digits after an optional `0x` or `0X`.
pub open spec fn hex_digits_of(b: Seq<u8>) -> Seq<u8> {
    if b.len() >= 2 && b[0] == 48 && (b[1] == 120 || b[1] == 88) {
        b.skip(2)
    } else {
        b
    }
}

/// The bytes that hexadecimal text spells, two digits a byte, if it is such text.
pub open spec fn hex_decoded(b: Seq<u8>) -> Option<Seq<u8>> {
    let d = hex_digits_of(b);
    if d.len() % 2 == 0 && crate::text::all_hex(d) {
        Some(
            Seq::new(
                (d.len() / 2) as nat,
                |i: int| crate::text::hex_value(d.subrange(2 * i, 2 * i + 2)) as u8,
            ),
        )
    } else {
        None
    }
}

/// The address of a public key: the low 20 bytes of the Keccak-256 of its key bytes.
/// For secp256k1 these are the 64 coordinate bytes, without the `0x04` prefix.
pub open spec fn address_of(key: PublicKeyView) -> Seq<u8> {
    keccak256_of(key_material(key)).skip(12)
}

/// The bytes hashed into an address.
pub open spec fn key_material(key: PublicKeyView) -> Seq<u8> {
    match key.kind {
        KeyKind::Secp256k1 => key.bytes.skip(1),
        KeyKind::Ed25519 => key.bytes,
    }
}

/// The address of the public key of a secp256k1 secret key.
pub open spec fn secret_address(secret: Seq<u8>) -> Did {
    did_of(
        address_of(
            PublicKeyView { kind: KeyKind::Secp256k1, bytes: secp256k1_public_of(secret)->Some_0 },
        ),
    )
}

/// The identifier spelt by 20 bytes.
pub open spec fn did_of(b: Seq<u8>) -> Did {
    Did { hi: crate::did::be_value(b.take(4)) as u32, lo: crate::did::be_value(b.skip(4)) as u128 }
}

/// The curve a public key lives on.
#[derive(Clone, Copy, Debug, PartialEq, Eq, Structural)]
pub enum KeyKind {
    Secp256k1,
    Ed25519,
}

/// What a public key is: its curve and its bytes.
pub struct PublicKeyView {
    pub kind: KeyKind,
    pub bytes: Seq<u8>,
}

/// A public key: for secp256k1 the 65-byte uncompressed point, for Ed25519 the 32-byte key.
#[derive(Debug, PartialEq, Eq)]
pub struct PublicKey {
    kind: KeyKind,
    bytes: Vec<u8>,
}

impl View for PublicKey {
    type V = PublicKeyView;

    closed spec fn view(&self) -> PublicKeyView {
        PublicKeyView { kind: self.kind, bytes: self.bytes@ }
    }
}

impl Clone for PublicKey {
    fn clone(&self) -> (r: PublicKey)
        ensures
            r@ == self@,
    {
        self.duplicate()
    }
}

impl PublicKeyView {
    /// A secp256k1 key in uncompressed form, or a 32-byte Ed25519 key.
    pub open spec fn wf(self) -> bool {
        match self.kind {
            KeyKind::Secp256k1 => self.bytes.len() == 65 && self.bytes[0] == 4,
            KeyKind::Ed25519 => self.bytes.len() == 32,
        }
    }
}

impl PublicKey {
    #[verifier::type_invariant]
    spec fn inv(&self) -> bool {
        self@.wf()
    }

    /// The curve of the key.
    pub fn kind(&self) -> (r: KeyKind)
        ensures
            r == self@.kind,
    {
        self.kind
    }

    /// The key's bytes.
    pub fn as_bytes(&self) -> (r: &Vec<u8>)
        ensures
            r@ == self@.bytes,
    {
        &self.bytes
    }

    /// A key with the same curve and bytes.
    pub fn duplicate(&self) -> (r: PublicKey)
        ensures
            r@ == self@,
    {
        proof {
            use_type_invariant(self);
        }
        PublicKey { kind: self.kind, bytes: self.bytes.clone() }
    }

    /// A secp256k1 key from its 65-byte uncompressed form.
    pub fn from_secp256k1_uncompressed(bytes: Vec<u8>) -> (r: PublicKey)
        requires
            bytes@.len() == 65,
            bytes@[0] == 4,
        ensures
            r@ == (PublicKeyView { kind: KeyKind::Secp256k1, bytes: bytes@ }),
            r@.wf(),
    {
        PublicKey { kind: KeyKind::Secp256k1, bytes }
    }

    /// Reads a serialized secp256k1 key, compressed (33 bytes) or uncompressed (65 bytes).
    pub fn from_secp256k1_bytes(bytes: &[u8]) -> (r: Result<PublicKey, Error>)
        ensures
            r matches Ok(k) ==> secp256k1_parsed(bytes@) == Some(k@.bytes) && k@.kind
                == KeyKind::Secp256k1 && k@.wf(),
            r is Err <==> secp256k1_parsed(bytes@) is None,
            r matches Err(e) ==> e == Error::InvalidPublicKey,
    {
        match secp256k1_parse(bytes) {
            Some(k) => Ok(PublicKey { kind: KeyKind::Secp256k1, bytes: k }),
            None => Err(Error::InvalidPublicKey),
        }
    }

    /// An Ed25519 key from its 32 bytes.
    pub fn from_ed25519_bytes(bytes: &[u8]) -> (r: Result<PublicKey, Error>)
        ensures
            r is Ok <==> bytes@.len() == 32,
            r matches Ok(k) ==> k@ == (PublicKeyView { kind: KeyKind::Ed25519, bytes: bytes@ }),
            r matches Err(e) ==> e == Error::InvalidPublicKey,
    {
        if bytes.len() != 32 {
            return Err(Error::InvalidPublicKey);
        }
        Ok(PublicKey { kind: KeyKind::Ed25519, bytes: crate::bytes::copy_bytes(bytes) })
    }

    /// Reads an Ed25519 key written as base58 text.
    pub fn try_from_b58t(text: &str) -> (r: Result<PublicKey, Error>)
        ensures
            r is Ok <==> (bs58_decoded(text@) matches Some(b) && b.len() == 32),
            r matches Ok(k) ==> bs58_decoded(text@) == Some(k@.bytes) && k@.kind
                == KeyKind::Ed25519,
            r matches Err(e) ==> e == Error::InvalidPublicKey,
    {
        match bs58_decode(text) {
            Some(b) => Self::from_ed25519_bytes(b.as_slice()),
            None => Err(Error::InvalidPublicKey),
        }
    }

    /// Reads a serialized secp256k1 key written in hexadecimal, with an optional `0x`.
    pub fn from_hex_string(text: &str) -> (r: Result<PublicKey, Error>)
        ensures
            match hex_decoded(text.spec_bytes()) {
                None => r == Err::<PublicKey, Error>(Error::InvalidPublicKey),
                Some(raw) => match secp256k1_parsed(raw) {
                    Some(k) => r matches Ok(pk) && pk@ == (PublicKeyView {
                        kind: KeyKind::Secp256k1,
                        bytes: k,
                    }),
                    None => r == Err::<PublicKey, Error>(Error::InvalidPublicKey),
                },
            },
    {
        let b = text.as_bytes();
        let start: usize = if b.len() >= 2 && b[0] == 48 && (b[1] == 120 || b[1] == 88) {
            2
        } else {
            0
        };
        let ghost d = hex_digits_of(b@);
        assert(d =~= b@.subrange(start as int, b@.len() as int));
        if (b.len() - start) % 2 != 0 || !crate::text::check_hex(b, start, b.len()) {
            return Err(Error::InvalidPublicKey);
        }
        let mut out: Vec<u8> = Vec::new();
        let mut i = start;
        while i < b.len()
            invariant
                start <= i <= b@.len(),
                (b@.len() - i) % 2 == 0,
                (i - start) % 2 == 0,
                d == b@.subrange(start as int, b@.len() as int),
                crate::text::all_hex(d),
                out@ =~= Seq::new(
                    ((i - start) / 2) as nat,
                    |k: int| crate::text::hex_value(d.subrange(2 * k, 2 * k + 2)) as u8,
                ),
            decreases b@.len() - i,
        {
            assert(b@.subrange(i as int, i + 2) =~= d.subrange(i - start, i - start + 2));
            assert(crate::text::all_hex(b@.subrange(i as int, i + 2))) by {
                assert forall|k: int| 0 <= k < 2 implies crate::text::is_hex_byte(
                    #[trigger] b@.subrange(i as int, i + 2)[k],
                ) by {
                    assert(b@.subrange(i as int, i + 2)[k] == d[i - start + k]);
                }
            }
            proof {
                crate::text::lemma_hex_value_bound(b@.subrange(i as int, i + 2));
                reveal_with_fuel(crate::text::pow16, 3);
            }
            let v = crate::text::parse_hex(b, i, i + 2);
            out.push(v as u8);
            let ghost k = (i - start) / 2;
            assert(2 * k == i - start);
            i = i + 2;
            assert(out@ =~= Seq::new(
                ((i - start) / 2) as nat,
                |k: int| crate::text::hex_value(d.subrange(2 * k, 2 * k + 2)) as u8,
            ));
        }
        assert(hex_decoded(b@) == Some(out@));
        Self::from_secp256k1_bytes(out.as_slice())
    }

    /// The key's address as an identifier.
    pub fn address(&self) -> (r: Did)
        ensures
            r == did_of(address_of(self@)),
    {
        proof {
            use_type_invariant(self);
        }
        let h = match self.kind {
            KeyKind::Secp256k1 => {
                let material = &self.bytes.as_slice()[1..65];
                assert(material@ =~= self.bytes@.skip(1));
                keccak256(material)
            },
            KeyKind::Ed25519 => keccak256(self.bytes.as_slice()),
        };
        assert(h@.subrange(12, 32) =~= h@.skip(12));
        Did::from_bytes(&h.as_slice()[12..32])
    }
}

/// A secp256k1 secret key, as its 32 bytes.
#[derive(Debug, PartialEq, Eq)]
pub struct SecretKey {
    bytes: Vec<u8>,
}

impl View for SecretKey {
    type V = Seq<u8>;

    closed spec fn view(&self) -> Seq<u8> {
        self.bytes@
    }
}

impl Clone for SecretKey {
    fn clone(&self) -> (r: SecretKey)
        ensures
            r@ == self@,
    {
        proof {
            use_type_invariant(self);
        }
        SecretKey { bytes: crate::bytes::copy_bytes(self.bytes.as_slice()) }
    }
}

impl SecretKey {
    #[verifier::type_invariant]
    spec fn inv(&self) -> bool {
        self.wf()
    }

    /// 32 bytes that form a valid secret key.
    pub open spec fn wf(&self) -> bool {
        self@.len() == 32 && secp256k1_public_of(self@) is Some
    }

    /// A fresh key from the thread's random number generator.
    pub fn random() -> (r: SecretKey)
        ensures
            r.wf(),
    {
        SecretKey { bytes: random_secret() }
    }

    /// A key from its 32 bytes.
    pub fn from_bytes(bytes: &[u8]) -> (r: Result<SecretKey, Error>)
        ensures
            r is Ok <==> bytes@.len() == 32 && secp256k1_public_of(bytes@) is Some,
            r matches Ok(k) ==> k@ == bytes@ && k.wf(),
            r matches Err(e) ==> e == Error::CurveError,
    {
        if bytes.len() != 32 {
            return Err(Error::CurveError);
        }
        match secp256k1_public(bytes) {
            Some(_) => Ok(SecretKey { bytes: crate::bytes::copy_bytes(bytes) }),
            None => Err(Error::CurveError),
        }
    }

    /// The key's 32 bytes.
    pub fn as_bytes(&self) -> (r: &Vec<u8>)
        ensures
            r@ == self@,
    {
        &self.bytes
    }

    /// The public key that belongs to this key.
    pub fn pubkey(&self) -> (r: PublicKey)
        ensures
            secp256k1_public_of(self@) == Some(r@.bytes),
            r@.kind == KeyKind::Secp256k1,
            r@.wf(),
    {
        proof {
            use_type_invariant(self);
        }
        match secp256k1_public(self.bytes.as_slice()) {
            Some(k) => PublicKey { kind: KeyKind::Secp256k1, bytes: k },
            None => {
                proof {
                    assert(false);
                }
                PublicKey { kind: KeyKind::Secp256k1, bytes: Vec::new() }
            },
        }
    }

    /// The address of the key's public key.
    pub fn address(&self) -> (r: Did)
        ensures
            r == secret_address(self@),
    {
        proof {
            use_type_invariant(self);
        }
        let pk = self.pubkey();
        pk.address()
    }

    /// The recoverable signature `r ‖ s ‖ v` of a 32-byte digest.
    pub fn sign_digest(&self, digest: &[u8]) -> (r: Vec<u8>)
        requires
            digest@.len() == 32,
        ensures
            ecdsa_signature_of(self@, digest@) == Some(r@),
            r@.len() == 65,
            recovered_address(digest@, r@) == Some(secret_address(self@)),
    {
        proof {
            use_type_invariant(self);
        }
        match ecdsa_sign(self.bytes.as_slice(), digest) {
            Some(s) => s,
            None => {
                proof {
                    assert(false);
                }
                Vec::new()
            },
        }
    }
}

/// What recovering a key from a signature `r ‖ s ‖ v` of a digest gives.
pub open spec fn ecdsa_key_result(digest: Seq<u8>, sig: Seq<u8>) -> Result<PublicKeyView, Error> {
    if sig.len() != 65 {
        Err(Error::BadSignature)
    } else if sig[64] >= 4 {
        Err(Error::BadRecoveryId)
    } else {
        match ecdsa_recovered(digest, sig) {
            Some(k) => Ok(PublicKeyView { kind: KeyKind::Secp256k1, bytes: k }),
            None => Err(Error::BadSignature),
        }
    }
}

/// The view of a key result.
pub open spec fn key_result(r: Result<PublicKey, Error>) -> Result<PublicKeyView, Error> {
    match r {
        Ok(k) => Ok(k@),
        Err(e) => Err(e),
    }
}

/// The public key that a recoverable signature `r ‖ s ‖ v` of a 32-byte digest recovers.
pub fn recover_hash(digest: &[u8], sig: &[u8]) -> (r: Result<PublicKey, Error>)
    requires
        digest@.len() == 32,
    ensures
        key_result(r) == ecdsa_key_result(digest@, sig@),
{
    if sig.len() != 65 {
        return Err(Error::BadSignature);
    }
    if sig[64] >= 4 {
        return Err(Error::BadRecoveryId);
    }
    match ecdsa_recover(digest, sig) {
        Some(k) => Ok(PublicKey { kind: KeyKind::Secp256k1, bytes: k }),
        None => Err(Error::BadSignature),
    }
}

/// Whether an Ed25519 signature of a message is valid under a key.
pub fn ed25519_check(key: &PublicKey, msg: &[u8], sig: &[u8]) -> (r: bool)
    ensures
        r == (key@.kind == KeyKind::Ed25519 && sig@.len() == 64 && ed25519_accepts(
            key@.bytes,
            msg@,
            sig@,
        )),
{
    proof {
        use_type_invariant(key);
    }
    match key.kind {
        KeyKind::Ed25519 => sig.len() == 64 && ed25519_verify(key.bytes.as_slice(), msg, sig),
        KeyKind::Secp256k1 => false,
    }
}

} // verus!

verus! {

/// The identifier of the secp256k1 key that `sig` recovers for `digest`, if any.
pub open spec fn recovered_address(digest: Seq<u8>, sig: Seq<u8>) -> Option<Did> {
    if sig.len() == 65 && sig[64] < 4 {
        match ecdsa_recovered(digest, sig) {
            Some(k) => Some(did_of(address_of(PublicKeyView { kind: KeyKind::Secp256k1, bytes: k }))),
            None => None,
        }
    } else {
        None
    }
}

/// Whether `sig` recovers, for `digest`, a key whose address is `address`.
pub fn recovers_to(digest: &[u8], sig: &[u8], address: &Did) -> (r: bool)
    requires
        digest@.len() == 32,
    ensures
        r == (recovered_address(digest@, sig@) == Some(*address)),
{
    match recover_hash(digest, sig) {
        Ok(pk) => pk.address() == *address,
        Err(_) => false,
    }
}

} // verus!
