//! The proof, attached to every routed payload, that the payload was signed by a
//! session key on behalf of its authorizer.

use vstd::prelude::*;
use vstd::string::StringSliceAdditionalSpecFns;
use vstd::utf8::encode_utf8;

use crate::ecc::PublicKey;
use crate::error::Error;
use crate::secp256k1;
use crate::session::now_ms;
use crate::session::{Session, SessionManager, SessionView};
use crate::text::{dec_text, push_char, push_decimal};

verus! {

/// The text that the session key signs for a serialized payload:
/// `"{payload}\n{ts_ms}\n{ttl_ms}"`.
pub open spec fn message_text(data: Seq<char>, ts_ms: nat, ttl_ms: nat) -> Seq<char> {
    data + seq!['\n'] + dec_text(ts_ms) + seq!['\n'] + dec_text(ttl_ms)
}

/// What a message verification is.
pub struct MessageVerificationView {
    pub session: SessionView,
    pub ttl_ms: nat,
    pub ts_ms: nat,
    pub sig: Seq<u8>,
}

impl MessageVerificationView {
    /// The bytes that the session key signed for a serialized payload.
    pub open spec fn signed_bytes(self, data: Seq<char>) -> Seq<u8> {
        encode_utf8(message_text(data, self.ts_ms, self.ttl_ms))
    }

    /// Whether, at `now`, the session holds and signed the serialized payload.
    pub open spec fn accepts_at(self, now: nat, data: Seq<char>) -> bool {
        self.session.check_message_at(now, self.signed_bytes(data), self.sig) is Ok
    }
}

/// A session, the payload's lifetime and creation time, and the session key's signature.
#[derive(Debug, PartialEq, Eq)]
pub struct MessageVerification {
    /// The session that signed.
    pub session: Session,
    /// Lifetime of the payload in milliseconds.
    pub ttl_ms: usize,
    /// Creation time of the payload in milliseconds since the epoch.
    pub ts_ms: u128,
    /// The session key's signature over `pack_msg(payload, ts_ms, ttl_ms)`.
    pub sig: Vec<u8>,
}

impl View for MessageVerification {
    type V = MessageVerificationView;

    open spec fn view(&self) -> MessageVerificationView {
        MessageVerificationView {
            session: self.session@,
            ttl_ms: self.ttl_ms as nat,
            ts_ms: self.ts_ms as nat,
            sig: self.sig@,
        }
    }
}

impl MessageVerification {
    /// Signs a serialized payload with a session manager's key.
    pub fn sign(sm: &SessionManager, data: &str, ts_ms: u128, ttl_ms: usize) -> (r: Result<
        MessageVerification,
        Error,
    >)
        ensures
            r matches Ok(v) && v@.session == sm@.session && v@.ts_ms == ts_ms && v@.ttl_ms
                == ttl_ms,
            r matches Ok(v) ==> v@.session.signs(v@.signed_bytes(data@), v@.sig),
            r matches Ok(v) ==> forall|now: nat|
                #![trigger v@.accepts_at(now, data@)]
                sm@.session.check_at(now) is Ok ==> v@.accepts_at(now, data@),
    {
        let msg = Self::pack_msg(data, ts_ms, ttl_ms);
        match sm.sign(msg.as_str()) {
            Ok(sig) => Ok(MessageVerification { session: sm.session(), ttl_ms, ts_ms, sig }),
            Err(e) => Err(e),
        }
    }

    /// The text that the session key signs for a serialized payload.
    pub fn pack_msg(data: &str, ts_ms: u128, ttl_ms: usize) -> (r: String)
        ensures
            r@ == message_text(data@, ts_ms as nat, ttl_ms as nat),
    {
        let mut msg = data.to_owned();
        push_char(&mut msg, '\n');
        push_decimal(&mut msg, ts_ms);
        push_char(&mut msg, '\n');
        push_decimal(&mut msg, ttl_ms as u128);
        proof {
            assert(msg@ =~= message_text(data@, ts_ms as nat, ttl_ms as nat));
        }
        msg
    }

    fn msg(&self, data: &str) -> (r: String)
        ensures
            r@ == message_text(data@, self.ts_ms as nat, self.ttl_ms as nat),
    {
        Self::pack_msg(data, self.ts_ms, self.ttl_ms)
    }

    /// Whether, at `now_ms`, the session holds and signed the serialized payload.
    pub fn verify_at(&self, now_ms: u128, data: &str) -> (r: bool)
        ensures
            r == self@.accepts_at(now_ms as nat, data@),
    {
        let msg = self.msg(data);
        self.session.verify_at(now_ms, msg.as_str(), self.sig.as_slice()).is_ok()
    }

    /// Whether, now, the session holds and signed the serialized payload.
    pub fn verify(&self, data: &str) -> (r: bool)
        ensures
            exists|now: nat| r == self@.accepts_at(now, data@),
            r ==> self@.session.authorized() && self@.session.signs(
                self@.signed_bytes(data@),
                self@.sig,
            ),
    {
        self.verify_at(now_ms(), data)
    }

    /// The public key that the signature recovers for the serialized payload.
    pub fn session_pubkey(&self, data: &str) -> (r: Result<PublicKey, Error>)
        ensures
            crate::ecc::key_result(r) == crate::ecc::ecdsa_key_result(
                secp256k1::digest_of(self@.signed_bytes(data@)),
                self@.sig,
            ),
    {
        let msg = self.msg(data);
        secp256k1::recover(msg.as_str(), self.sig.as_slice())
    }
}

} // verus!
