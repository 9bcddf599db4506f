//! Delegated sessions: a long-term identity (the authorizer) signs a short-lived
//! session key, and the session key then signs every message.

use vstd::prelude::*;
use vstd::string::StringSliceAdditionalSpecFns;
use vstd::utf8::encode_utf8;

use crate::bip137;
use crate::bytes::{bytes_eq, copy_bytes};
use crate::did::{did_from_text, did_text, Did};
use crate::ecc::{
    address_of, bs58_decoded, did_of, ecdsa_key_result, ecdsa_signature_of, ed25519_accepts,
    key_result, recovered_address, secret_address, KeyKind, PublicKey, PublicKeyView, SecretKey,
};
use crate::ed25519;
use crate::eip191;
use crate::error::Error;
use crate::secp256k1;
use crate::text::{dec_text, push_char, push_decimal};

verus! {

/// The lifetime of a new session: 30 days, in milliseconds.
pub const DEFAULT_SESSION_TTL_MS: usize = 2592000000;

/// The text that an authorizer signs: `"{session_id}\n{ts_ms}\n{ttl_ms}"`.
pub open spec fn session_text(session_id: Did, ts_ms: nat, ttl_ms: nat) -> Seq<char> {
    did_text(session_id) + seq!['\n'] + dec_text(ts_ms) + seq!['\n'] + dec_text(ttl_ms)
}

/// Writes the text that an authorizer signs.
pub fn pack_session(session_id: Did, ts_ms: u128, ttl_ms: usize) -> (r: String)
    ensures
        r@ == session_text(session_id, ts_ms as nat, ttl_ms as nat),
{
    let mut s = session_id.to_string();
    push_char(&mut s, '\n');
    push_decimal(&mut s, ts_ms);
    push_char(&mut s, '\n');
    push_decimal(&mut s, ttl_ms as u128);
    proof {
        assert(s@ =~= session_text(session_id, ts_ms as nat, ttl_ms as nat));
    }
    s
}

/// What an authorizer is: its scheme and identity.
pub enum AuthorizerView {
    Secp256k1(Did),
    EIP191(Did),
    BIP137(Did),
    Ed25519(PublicKeyView),
}

/// The long-term identity that signs a session, under one of four schemes.
#[derive(Debug, PartialEq, Eq)]
pub enum Authorizer {
    /// Raw ECDSA over secp256k1, by address.
    Secp256k1(Did),
    /// EIP-191 personal messages, by address.
    EIP191(Did),
    /// BIP-137 signed messages, by address.
    BIP137(Did),
    /// Ed25519, by public key.
    Ed25519(PublicKey),
}

impl View for Authorizer {
    type V = AuthorizerView;

    open spec fn view(&self) -> AuthorizerView {
        match self {
            Authorizer::Secp256k1(d) => AuthorizerView::Secp256k1(*d),
            Authorizer::EIP191(d) => AuthorizerView::EIP191(*d),
            Authorizer::BIP137(d) => AuthorizerView::BIP137(*d),
            Authorizer::Ed25519(k) => AuthorizerView::Ed25519(k@),
        }
    }
}

impl Clone for Authorizer {
    fn clone(&self) -> (r: Authorizer)
        ensures
            r@ == self@,
    {
        match self {
            Authorizer::Secp256k1(d) => Authorizer::Secp256k1(*d),
            Authorizer::EIP191(d) => Authorizer::EIP191(*d),
            Authorizer::BIP137(d) => Authorizer::BIP137(*d),
            Authorizer::Ed25519(k) => Authorizer::Ed25519(k.duplicate()),
        }
    }
}

/// The authorizer that an entity and a type name give: the type is one of
/// `secp256k1`, `eip191`, `bip137` (the entity an identifier) or `ed25519`
/// (the entity a base58 public key).
pub open spec fn authorizer_from(entity: Seq<char>, kind: Seq<char>) -> Result<
    AuthorizerView,
    Error,
> {
    let k = encode_utf8(kind);
    let did = did_from_text(encode_utf8(entity));
    if k == "secp256k1".spec_bytes() {
        match did {
            Some(d) => Ok(AuthorizerView::Secp256k1(d)),
            None => Err(Error::InvalidDid),
        }
    } else if k == "eip191".spec_bytes() {
        match did {
            Some(d) => Ok(AuthorizerView::EIP191(d)),
            None => Err(Error::InvalidDid),
        }
    } else if k == "bip137".spec_bytes() {
        match did {
            Some(d) => Ok(AuthorizerView::BIP137(d)),
            None => Err(Error::InvalidDid),
        }
    } else if k == "ed25519".spec_bytes() {
        match bs58_decoded(entity) {
            Some(b) => if b.len() == 32 {
                Ok(AuthorizerView::Ed25519(PublicKeyView { kind: KeyKind::Ed25519, bytes: b }))
            } else {
                Err(Error::InvalidPublicKey)
            },
            None => Err(Error::InvalidPublicKey),
        }
    } else {
        Err(Error::UnknownAuthorizer)
    }
}

/// The view of a parse result.
pub open spec fn authorizer_result(r: Result<Authorizer, Error>) -> Result<AuthorizerView, Error> {
    match r {
        Ok(a) => Ok(a@),
        Err(e) => Err(e),
    }
}

/// Whether `sig` is the authorizer's signature of `text` under its scheme.
pub open spec fn authorizer_accepts(a: AuthorizerView, text: Seq<u8>, sig: Seq<u8>) -> bool {
    match a {
        AuthorizerView::Secp256k1(d) => recovered_address(secp256k1::digest_of(text), sig) == Some(
            d,
        ),
        AuthorizerView::EIP191(d) => recovered_address(eip191::digest_of(text), sig) == Some(d),
        AuthorizerView::BIP137(d) => sig.len() == 65 && sig[0] >= 27 && recovered_address(
            bip137::digest_of(text),
            bip137::normalized(sig),
        ) == Some(d),
        AuthorizerView::Ed25519(k) => k.kind == KeyKind::Ed25519 && sig.len() == 64
            && ed25519_accepts(k.bytes, text, sig),
    }
}

/// The key that the authorizer's signature of `text` gives: recovered for the three
/// ECDSA schemes, the embedded key for Ed25519.
pub open spec fn authorizer_key(a: AuthorizerView, text: Seq<u8>, sig: Seq<u8>) -> Result<
    PublicKeyView,
    Error,
> {
    match a {
        AuthorizerView::Secp256k1(_) => ecdsa_key_result(secp256k1::digest_of(text), sig),
        AuthorizerView::EIP191(_) => ecdsa_key_result(eip191::digest_of(text), sig),
        AuthorizerView::BIP137(_) => bip137::key_result_of(bip137::digest_of(text), sig),
        AuthorizerView::Ed25519(k) => Ok(k),
    }
}

/// The identifier of an authorizer: its address, or the address of its Ed25519 key.
pub open spec fn authorizer_did_of(a: AuthorizerView) -> Did {
    match a {
        AuthorizerView::Secp256k1(d) => d,
        AuthorizerView::EIP191(d) => d,
        AuthorizerView::BIP137(d) => d,
        AuthorizerView::Ed25519(k) => did_of(address_of(k)),
    }
}

impl Authorizer {
    /// The authorizer named by an entity and a type name.
    pub fn from_entity(entity: &str, kind: &str) -> (r: Result<Authorizer, Error>)
        ensures
            authorizer_result(r) == authorizer_from(entity@, kind@),
    {
        let k = kind.as_bytes();
        if bytes_eq(k, "secp256k1".as_bytes()) {
            match Did::from_str(entity) {
                Ok(d) => Ok(Authorizer::Secp256k1(d)),
                Err(e) => Err(e),
            }
        } else if bytes_eq(k, "eip191".as_bytes()) {
            match Did::from_str(entity) {
                Ok(d) => Ok(Authorizer::EIP191(d)),
                Err(e) => Err(e),
            }
        } else if bytes_eq(k, "bip137".as_bytes()) {
            match Did::from_str(entity) {
                Ok(d) => Ok(Authorizer::BIP137(d)),
                Err(e) => Err(e),
            }
        } else if bytes_eq(k, "ed25519".as_bytes()) {
            match PublicKey::try_from_b58t(entity) {
                Ok(pk) => Ok(Authorizer::Ed25519(pk)),
                Err(e) => Err(e),
            }
        } else {
            Err(Error::UnknownAuthorizer)
        }
    }
}

/// What a session is.
pub struct SessionView {
    pub session_id: Did,
    pub authorizer: AuthorizerView,
    pub ttl_ms: nat,
    pub ts_ms: nat,
    pub sig: Seq<u8>,
}

impl SessionView {
    /// The bytes that the authorizer signed.
    pub open spec fn signed_bytes(self) -> Seq<u8> {
        encode_utf8(session_text(self.session_id, self.ts_ms, self.ttl_ms))
    }

    /// The session's lifetime has passed at `now` (milliseconds since the epoch).
    pub open spec fn expired_at(self, now: nat) -> bool {
        now > self.ts_ms + self.ttl_ms
    }

    /// The authorizer's signature over the session is valid.
    pub open spec fn authorized(self) -> bool {
        authorizer_accepts(self.authorizer, self.signed_bytes(), self.sig)
    }

    /// The outcome of checking the session at `now`.
    pub open spec fn check_at(self, now: nat) -> Result<(), Error> {
        if self.expired_at(now) {
            Err(Error::SessionExpired)
        } else if !self.authorized() {
            Err(Error::VerifySignatureFailed)
        } else {
            Ok(())
        }
    }

    /// Whether `sig` is the session key's signature of `msg`.
    pub open spec fn signs(self, msg: Seq<u8>, sig: Seq<u8>) -> bool {
        recovered_address(secp256k1::digest_of(msg), sig) == Some(self.session_id)
    }

    /// The outcome of checking a message signature at `now`.
    pub open spec fn check_message_at(self, now: nat, msg: Seq<u8>, sig: Seq<u8>) -> Result<
        (),
        Error,
    > {
        match self.check_at(now) {
            Err(e) => Err(e),
            Ok(_) => if self.signs(msg, sig) {
                Ok(())
            } else {
                Err(Error::VerifySignatureFailed)
            },
        }
    }
}

/// A session: the session key's identifier, signed by an authorizer for a lifetime.
#[derive(Debug, PartialEq, Eq)]
pub struct Session {
    /// Identifier of the session key.
    pub session_id: Did,
    /// The identity that signed the session.
    pub authorizer: Authorizer,
    /// Lifetime in milliseconds.
    pub ttl_ms: usize,
    /// Creation time in milliseconds since the epoch.
    pub ts_ms: u128,
    /// The authorizer's signature over `pack()`.
    pub sig: Vec<u8>,
}

impl View for Session {
    type V = SessionView;

    open spec fn view(&self) -> SessionView {
        SessionView {
            session_id: self.session_id,
            authorizer: self.authorizer@,
            ttl_ms: self.ttl_ms as nat,
            ts_ms: self.ts_ms as nat,
            sig: self.sig@,
        }
    }
}

impl Clone for Session {
    fn clone(&self) -> (r: Session)
        ensures
            r@ == self@,
    {
        Session {
            session_id: self.session_id,
            authorizer: self.authorizer.clone(),
            ttl_ms: self.ttl_ms,
            ts_ms: self.ts_ms,
            sig: copy_bytes(self.sig.as_slice()),
        }
    }
}

/// Relies on `std::time::SystemTime::now`: milliseconds since the Unix epoch
/// (0 for a clock set before it).
#[verifier::external_body]
pub(crate) fn now_ms() -> (r: u128) {
    match std::time::SystemTime::now().duration_since(std::time::UNIX_EPOCH) {
        Ok(d) => d.as_millis(),
        Err(_) => 0,
    }
}

impl Session {
    /// The text that the authorizer signed.
    pub fn pack(&self) -> (r: String)
        ensures
            r@ == session_text(self.session_id, self.ts_ms as nat, self.ttl_ms as nat),
    {
        pack_session(self.session_id, self.ts_ms, self.ttl_ms)
    }

    /// Whether the session's lifetime has passed at `now_ms`.
    pub fn is_expired_at(&self, now_ms: u128) -> (r: bool)
        ensures
            r == self@.expired_at(now_ms as nat),
    {
        now_ms > self.ts_ms && now_ms - self.ts_ms > self.ttl_ms as u128
    }

    /// Whether the session's lifetime has passed now.
    pub fn is_expired(&self) -> (r: bool)
        ensures
            exists|now: nat| r == self@.expired_at(now),
    {
        self.is_expired_at(now_ms())
    }

    fn authorized(&self) -> (r: bool)
        ensures
            r == self@.authorized(),
    {
        let text = self.pack();
        let t = text.as_str();
        let sig = self.sig.as_slice();
        match &self.authorizer {
            Authorizer::Secp256k1(did) => secp256k1::verify(t, did, sig),
            Authorizer::EIP191(did) => eip191::verify(t, did, sig),
            Authorizer::BIP137(did) => bip137::verify(t, did, sig),
            Authorizer::Ed25519(pk) => ed25519::verify(t, &pk.address(), sig, pk),
        }
    }

    /// Checks the session at `now_ms`: not expired, and signed by its authorizer.
    pub fn verify_self_at(&self, now_ms: u128) -> (r: Result<(), Error>)
        ensures
            r == self@.check_at(now_ms as nat),
    {
        if self.is_expired_at(now_ms) {
            return Err(Error::SessionExpired);
        }
        if !self.authorized() {
            return Err(Error::VerifySignatureFailed);
        }
        Ok(())
    }

    /// Checks the session now: not expired, and signed by its authorizer.
    pub fn verify_self(&self) -> (r: Result<(), Error>)
        ensures
            exists|now: nat| r == self@.check_at(now),
            r is Ok ==> self@.authorized(),
            !self@.authorized() ==> r is Err,
    {
        self.verify_self_at(now_ms())
    }

    /// Checks, at `now_ms`, the session and that `sig` is the session key's signature of `msg`.
    pub fn verify_at(&self, now_ms: u128, msg: &str, sig: &[u8]) -> (r: Result<(), Error>)
        ensures
            r == self@.check_message_at(now_ms as nat, msg.spec_bytes(), sig@),
    {
        match self.verify_self_at(now_ms) {
            Err(e) => Err(e),
            Ok(()) => {
                if !secp256k1::verify(msg, &self.session_id, sig) {
                    return Err(Error::VerifySignatureFailed);
                }
                Ok(())
            },
        }
    }

    /// Checks, now, the session and that `sig` is the session key's signature of `msg`.
    pub fn verify(&self, msg: &str, sig: &[u8]) -> (r: Result<(), Error>)
        ensures
            exists|now: nat| r == self@.check_message_at(now, msg.spec_bytes(), sig@),
            r is Ok ==> self@.authorized() && self@.signs(msg.spec_bytes(), sig@),
    {
        self.verify_at(now_ms(), msg, sig)
    }

    /// The authorizer's public key: recovered from the session signature for the
    /// ECDSA schemes, the embedded key for Ed25519.
    pub fn authorizer_pubkey(&self) -> (r: Result<PublicKey, Error>)
        ensures
            key_result(r) == authorizer_key(self@.authorizer, self@.signed_bytes(), self@.sig),
    {
        let text = self.pack();
        let t = text.as_str();
        let sig = self.sig.as_slice();
        match &self.authorizer {
            Authorizer::Secp256k1(_) => secp256k1::recover(t, sig),
            Authorizer::BIP137(_) => bip137::recover(t, sig),
            Authorizer::EIP191(_) => eip191::recover(t, sig),
            Authorizer::Ed25519(pk) => Ok(pk.duplicate()),
        }
    }

    /// The authorizer's identifier.
    pub fn authorizer_did(&self) -> (r: Did)
        ensures
            r == authorizer_did_of(self@.authorizer),
    {
        match &self.authorizer {
            Authorizer::Secp256k1(did) => *did,
            Authorizer::BIP137(did) => *did,
            Authorizer::EIP191(did) => *did,
            Authorizer::Ed25519(pk) => pk.address(),
        }
    }
}

/// Builds a `SessionManager`: create it with the authorizer's entity and type, have the
/// authorizer sign `pack_session()`, hand the signature to `sig`, then `build`.
#[derive(Debug)]
pub struct SessionManagerBuilder {
    /// The freshly drawn session key.
    pub session_key: SecretKey,
    /// The authorizer, as text.
    pub authorizer_entity: String,
    /// The authorizer's scheme: `secp256k1`, `eip191`, `bip137` or `ed25519`.
    pub authorizer_type: String,
    /// Lifetime in milliseconds.
    pub ttl_ms: usize,
    /// Creation time in milliseconds since the epoch.
    pub ts_ms: u128,
    /// The authorizer's signature.
    pub sig: Vec<u8>,
}

/// The session that a builder describes, given its parsed authorizer.
pub open spec fn built_session(b: &SessionManagerBuilder, a: AuthorizerView) -> SessionView {
    SessionView {
        session_id: secret_address(b.session_key@),
        authorizer: a,
        ttl_ms: b.ttl_ms as nat,
        ts_ms: b.ts_ms as nat,
        sig: b.sig@,
    }
}

/// A session created at `ts` with the default lifetime and checked at `now`: it is
/// built exactly when `now` is within its lifetime.
pub open spec fn fresh_outcome(r: Result<SessionManager, Error>, now: nat, ts: nat) -> bool {
    &&& (r is Ok <==> now <= ts + DEFAULT_SESSION_TTL_MS)
    &&& (r matches Ok(sm) ==> sm@.session.ts_ms == ts)
}

/// What building gives when checked at `now`: the authorizer's parse error, the
/// session check's error, or a manager for the described session and the builder's key.
pub open spec fn build_outcome(
    b: &SessionManagerBuilder,
    now: nat,
    r: Result<SessionManager, Error>,
) -> bool {
    match authorizer_from(b.authorizer_entity@, b.authorizer_type@) {
        Err(e) => r == Err::<SessionManager, Error>(e),
        Ok(a) => match built_session(b, a).check_at(now) {
            Err(e) => r == Err::<SessionManager, Error>(e),
            Ok(_) => r matches Ok(sm) && sm@.session == built_session(b, a) && sm@.session_key
                == b.session_key@,
        },
    }
}

impl SessionManagerBuilder {
    /// A builder for the given authorizer, with a fresh random session key, created now,
    /// with the default lifetime.
    pub fn new(authorizer_entity: String, authorizer_type: String) -> (r: SessionManagerBuilder)
        ensures
            r.authorizer_entity@ == authorizer_entity@,
            r.authorizer_type@ == authorizer_type@,
            r.ttl_ms == DEFAULT_SESSION_TTL_MS,
            r.sig@.len() == 0,
    {
        let session_key = SecretKey::random();
        Self::with_key(authorizer_entity, authorizer_type, session_key, now_ms())
    }

    /// A builder for the given authorizer, session key and creation time, with the
    /// default lifetime.
    pub fn with_key(
        authorizer_entity: String,
        authorizer_type: String,
        session_key: SecretKey,
        ts_ms: u128,
    ) -> (r: SessionManagerBuilder)
        ensures
            r.authorizer_entity@ == authorizer_entity@,
            r.authorizer_type@ == authorizer_type@,
            r.session_key@ == session_key@,
            r.ts_ms == ts_ms,
            r.ttl_ms == DEFAULT_SESSION_TTL_MS,
            r.sig@.len() == 0,
    {
        SessionManagerBuilder {
            session_key,
            authorizer_entity,
            authorizer_type,
            ttl_ms: DEFAULT_SESSION_TTL_MS,
            ts_ms,
            sig: Vec::new(),
        }
    }

    /// Whether the authorizer's entity and type name a valid authorizer.
    pub fn validate_authorizer(&self) -> (r: bool)
        ensures
            r == authorizer_from(self.authorizer_entity@, self.authorizer_type@) is Ok,
    {
        Authorizer::from_entity(self.authorizer_entity.as_str(), self.authorizer_type.as_str()).is_ok()
    }

    /// The text that the authorizer is to sign.
    pub fn pack_session(&self) -> (r: String)
        ensures
            r@ == session_text(
                secret_address(self.session_key@),
                self.ts_ms as nat,
                self.ttl_ms as nat,
            ),
    {
        pack_session(self.session_key.address(), self.ts_ms, self.ttl_ms)
    }

    /// Sets the authorizer's signature.
    pub fn sig(self, sig: Vec<u8>) -> (r: SessionManagerBuilder)
        ensures
            r.sig@ == sig@,
            r.session_key@ == self.session_key@,
            r.authorizer_entity@ == self.authorizer_entity@,
            r.authorizer_type@ == self.authorizer_type@,
            r.ttl_ms == self.ttl_ms,
            r.ts_ms == self.ts_ms,
    {
        let mut b = self;
        b.sig = sig;
        b
    }

    /// Sets the session's lifetime.
    pub fn ttl(self, ttl_ms: usize) -> (r: SessionManagerBuilder)
        ensures
            r.ttl_ms == ttl_ms,
            r.sig@ == self.sig@,
            r.session_key@ == self.session_key@,
            r.authorizer_entity@ == self.authorizer_entity@,
            r.authorizer_type@ == self.authorizer_type@,
            r.ts_ms == self.ts_ms,
    {
        let mut b = self;
        b.ttl_ms = ttl_ms;
        b
    }

    /// Builds the session and checks it at `now_ms`.
    pub fn build_at(self, now_ms: u128) -> (r: Result<SessionManager, Error>)
        ensures
            build_outcome(&self, now_ms as nat, r),
    {
        let authorizer = match Authorizer::from_entity(
            self.authorizer_entity.as_str(),
            self.authorizer_type.as_str(),
        ) {
            Ok(a) => a,
            Err(e) => return Err(e),
        };
        let session = Session {
            session_id: self.session_key.address(),
            authorizer,
            ttl_ms: self.ttl_ms,
            ts_ms: self.ts_ms,
            sig: self.sig,
        };
        match session.verify_self_at(now_ms) {
            Err(e) => Err(e),
            Ok(()) => Ok(SessionManager { session, session_key: self.session_key }),
        }
    }

    /// Builds the session and checks it now.
    pub fn build(self) -> (r: Result<SessionManager, Error>)
        ensures
            match authorizer_from(self.authorizer_entity@, self.authorizer_type@) {
                Err(e) => r == Err::<SessionManager, Error>(e),
                Ok(a) => {
                    &&& !built_session(&self, a).authorized() ==> r is Err
                    &&& r matches Ok(sm) ==> sm@.session == built_session(&self, a)
                        && sm@.session_key == self.session_key@ && sm@.session.authorized()
                },
            },
            exists|now: nat| build_outcome(&self, now, r),
    {
        self.build_at(now_ms())
    }
}

/// A session together with its secret key, which signs outbound messages.
#[derive(Debug, PartialEq, Eq)]
pub struct SessionManager {
    session: Session,
    session_key: SecretKey,
}

/// What a session manager is: its session and the bytes of its key.
pub struct SessionManagerView {
    pub session: SessionView,
    pub session_key: Seq<u8>,
}

impl View for SessionManager {
    type V = SessionManagerView;

    closed spec fn view(&self) -> SessionManagerView {
        SessionManagerView { session: self.session@, session_key: self.session_key@ }
    }
}

impl SessionManager {
    /// The session belongs to the key: its identifier is the key's address.
    #[verifier::type_invariant]
    spec fn inv(&self) -> bool {
        self.session.session_id == secret_address(self.session_key@)
    }

    /// A session manager for a session signed by `key` under the raw secp256k1 scheme.
    pub fn new_with_seckey(key: &SecretKey) -> (r: Result<SessionManager, Error>)
        ensures
            r matches Err(e) ==> e == Error::SessionExpired,
            r matches Ok(sm) ==> sm@.session.authorized() && sm@.session.authorizer
                == AuthorizerView::Secp256k1(secret_address(key@)) && sm@.session.session_id
                == secret_address(sm@.session_key) && sm@.session.ttl_ms == DEFAULT_SESSION_TTL_MS
                && Some(sm@.session.sig) == ecdsa_signature_of(
                key@,
                secp256k1::digest_of(sm@.session.signed_bytes()),
            ),
            exists|now: nat, ts: nat| #[trigger] fresh_outcome(r, now, ts),
    {
        let address = key.address();
        proof {
            crate::did::lemma_did_text_round_trip(address);
        }
        let authorizer_entity = address.to_string();
        let authorizer_type = "secp256k1".to_owned();
        let mut builder = SessionManagerBuilder::new(authorizer_entity, authorizer_type);
        let packed = builder.pack_session();
        let sig = secp256k1::sign_raw(key, packed.as_str());
        builder = builder.sig(sig);
        let ghost b = builder;
        let ghost a = AuthorizerView::Secp256k1(address);
        proof {
            assert(authorizer_from(b.authorizer_entity@, b.authorizer_type@) == Ok::<
                AuthorizerView,
                Error,
            >(a));
            assert(built_session(&b, a).authorized());
        }
        let r = builder.build();
        proof {
            let now = choose|now: nat| build_outcome(&b, now, r);
            assert(fresh_outcome(r, now, b.ts_ms as nat));
        }
        r
    }

    /// A session manager from a session and its key, as read back from storage; the
    /// session must belong to the key.
    pub fn from_parts(session: Session, session_key: SecretKey) -> (r: Result<SessionManager, Error>)
        ensures
            session@.session_id == secret_address(session_key@) ==> (r matches Ok(sm)
                && sm@.session == session@ && sm@.session_key == session_key@),
            session@.session_id != secret_address(session_key@) ==> r
                == Err::<SessionManager, Error>(Error::Deserialize),
    {
        if session.session_id != session_key.address() {
            return Err(Error::Deserialize);
        }
        Ok(SessionManager { session, session_key })
    }

    /// A copy of the session.
    pub fn session(&self) -> (r: Session)
        ensures
            r@ == self@.session,
            r@.session_id == secret_address(self@.session_key),
    {
        proof {
            use_type_invariant(self);
        }
        self.session.clone()
    }

    /// The session's secret key.
    pub fn session_key(&self) -> (r: &SecretKey)
        ensures
            r@ == self@.session_key,
    {
        &self.session_key
    }

    /// Signs `msg` with the session key (raw secp256k1).
    pub fn sign(&self, msg: &str) -> (r: Result<Vec<u8>, Error>)
        ensures
            r matches Ok(s) && ecdsa_signature_of(
                self@.session_key,
                secp256k1::digest_of(msg.spec_bytes()),
            ) == Some(s@),
            r matches Ok(s) && recovered_address(secp256k1::digest_of(msg.spec_bytes()), s@) == Some(
                self@.session.session_id,
            ),
    {
        proof {
            use_type_invariant(self);
        }
        Ok(secp256k1::sign_raw(&self.session_key, msg))
    }

    /// The authorizer's identifier.
    pub fn authorizer_did(&self) -> (r: Did)
        ensures
            r == authorizer_did_of(self@.session.authorizer),
    {
        self.session.authorizer_did()
    }
}

/// The base58-check text (Monero alphabet, Keccak-256 checksum) of some bytes.
pub uninterp spec fn base58_check_of(data: Seq<u8>) -> Seq<char>;

/// Relies on `base58_monero::encode_check`: the base58-check text of the bytes, in the
/// ASCII base58 alphabet. It never fails: the input grows by a 4-byte checksum, so every block it encodes
/// holds 1 to 8 bytes, and 4 bytes take 6 characters.
#[verifier::external_body]
fn base58_check_encode(data: &[u8]) -> (r: Option<String>)
    ensures
        r is Some,
        vstd::utf8::is_ascii_chars(r->Some_0@),
        r->Some_0@ == base58_check_of(data@),
        r->Some_0@.len() >= 6,
{
    base58_monero::encode_check(data).ok()
}

/// Relies on `base58_monero::decode_check`: the bytes whose base58-check text this is,
/// or `None` for text that is not such an encoding. Text of 6 bytes or more decodes to
/// at least the 4 checksum bytes or fails, so the checksum split cannot panic.
#[verifier::external_body]
fn base58_check_decode(text: &str) -> (r: Option<Vec<u8>>)
    requires
        text.spec_bytes().len() >= 6,
    ensures
        r is Some ==> base58_check_of(r->Some_0@) == text@,
        forall|b: Seq<u8>| base58_check_of(b) == text@ ==> r == Some(r->Some_0) && r->Some_0@ == b,
{
    base58_monero::decode_check(text).ok()
}

/// Wraps the serialized form of a session manager for storage: base58-check text.
pub fn encode_dump(serialized: &[u8]) -> (r: Result<String, Error>)
    ensures
        r matches Ok(t) && t@ == base58_check_of(serialized@),
        r matches Ok(t) && encode_utf8(t@).len() >= 6,
{
    match base58_check_encode(serialized) {
        Some(t) => {
            proof {
                vstd::utf8::is_ascii_chars_encode_utf8(t@);
            }
            Ok(t)
        },
        None => Err(Error::EncodeError),
    }
}

/// Unwraps stored text into the serialized form of a session manager.
pub fn decode_dump(text: &str) -> (r: Result<Vec<u8>, Error>)
    ensures
        r matches Ok(b) ==> base58_check_of(b@) == text@,
        text.spec_bytes().len() >= 6 ==> forall|b: Seq<u8>|
            base58_check_of(b) == text@ ==> (r matches Ok(v) && v@ == b),
        r matches Err(e) ==> e == Error::Decode,
        text.spec_bytes().len() < 6 ==> r == Err::<Vec<u8>, Error>(Error::Decode),
{
    if text.as_bytes().len() < 6 {
        return Err(Error::Decode);
    }
    match base58_check_decode(text) {
        Some(b) => Ok(b),
        None => Err(Error::Decode),
    }
}

} // verus!
