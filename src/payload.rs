//! Routed payloads: their byte framing, their origin check, relay bookkeeping, and
//! the decision a node takes on each inbound payload.

use vstd::prelude::*;

use crate::bytes::append_bytes;
use crate::chord::{between, closest_preceding, ChordState, Lookup};
use crate::did::{be_value, parse_be, pow256, Did};
use crate::error::Error;
use crate::session::now_ms;
use crate::session::SessionManager;
use crate::verification::MessageVerification;

verus! {

/// The framing version this library writes and reads.
pub const PAYLOAD_VERSION: u8 = 1;

/// The low `k` bytes of `n`, most significant first.
pub open spec fn be_fixed(n: nat, k: nat) -> Seq<u8>
    decreases k,
{
    if k == 0 {
        Seq::empty()
    } else {
        be_fixed(n / 256, (k - 1) as nat).push((n % 256) as u8)
    }
}

/// A frame: the version byte, the header's length in 4 big-endian bytes, the header,
/// the body's length in 4 big-endian bytes, the body.
pub open spec fn frame_of(header: Seq<u8>, body: Seq<u8>) -> Seq<u8> {
    seq![PAYLOAD_VERSION] + be_fixed(header.len(), 4) + header + be_fixed(body.len(), 4) + body
}

/// What reading a frame gives: its header and body, or why it is not a frame.
pub open spec fn parse_frame(b: Seq<u8>) -> Result<(Seq<u8>, Seq<u8>), Error> {
    if b.len() == 0 {
        Err(Error::Decode)
    } else if b[0] != PAYLOAD_VERSION {
        Err(Error::UnsupportedVersion)
    } else if b.len() < 5 {
        Err(Error::Decode)
    } else {
        let hl = be_value(b.subrange(1, 5)) as int;
        if b.len() < 9 + hl {
            Err(Error::Decode)
        } else {
            let bl = be_value(b.subrange(5 + hl, 9 + hl)) as int;
            if b.len() != 9 + hl + bl {
                Err(Error::Decode)
            } else {
                Ok((b.subrange(5, 5 + hl), b.subrange(9 + hl, b.len() as int)))
            }
        }
    }
}

pub proof fn lemma_be_fixed(n: nat, k: nat)
    ensures
        be_fixed(n, k).len() == k,
        be_value(be_fixed(n, k)) == n % pow256(k),
    decreases k,
{
    if k == 0 {
    } else {
        let m = (k - 1) as nat;
        lemma_be_fixed(n / 256, m);
        assert(be_fixed(n, k).drop_last() =~= be_fixed(n / 256, m));
        crate::did::lemma_pow256_mono(0, m);
        vstd::arithmetic::div_mod::lemma_mod_breakdown(n as int, 256, pow256(m) as int);
    }
}

/// A frame reads back as the header and body it was made of.
pub proof fn lemma_frame_round_trip(header: Seq<u8>, body: Seq<u8>)
    requires
        header.len() < 0x1_0000_0000,
        body.len() < 0x1_0000_0000,
    ensures
        parse_frame(frame_of(header, body)) == Ok::<(Seq<u8>, Seq<u8>), Error>((header, body)),
{
    lemma_be_fixed(header.len(), 4);
    lemma_be_fixed(body.len(), 4);
    reveal_with_fuel(pow256, 5);
    vstd::arithmetic::div_mod::lemma_small_mod(header.len(), pow256(4));
    vstd::arithmetic::div_mod::lemma_small_mod(body.len(), pow256(4));
    let f = frame_of(header, body);
    let hl = header.len() as int;
    assert(f.subrange(1, 5) =~= be_fixed(header.len(), 4));
    assert(f.subrange(5 + hl, 9 + hl) =~= be_fixed(body.len(), 4));
    assert(f.subrange(5, 5 + hl) =~= header);
    assert(f.subrange(9 + hl, f.len() as int) =~= body);
}

fn push_be(buf: &mut Vec<u8>, n: u64, k: u32)
    ensures
        final(buf)@ == old(buf)@ + be_fixed(n as nat, k as nat),
    decreases k,
{
    if k > 0 {
        push_be(buf, n / 256, k - 1);
        buf.push((n % 256) as u8);
    }
    assert(final(buf)@ =~= old(buf)@ + be_fixed(n as nat, k as nat));
}

/// Frames a serialized header and a body.
pub fn encode_frame(header: &[u8], body: &[u8]) -> (r: Result<Vec<u8>, Error>)
    ensures
        header@.len() < 0x1_0000_0000 && body@.len() < 0x1_0000_0000 ==> (r matches Ok(v)
            && v@ == frame_of(header@, body@)),
        !(header@.len() < 0x1_0000_0000 && body@.len() < 0x1_0000_0000) ==> r
            == Err::<Vec<u8>, Error>(Error::EncodeError),
{
    if header.len() as u64 >= 0x1_0000_0000 || body.len() as u64 >= 0x1_0000_0000 {
        return Err(Error::EncodeError);
    }
    let mut out: Vec<u8> = Vec::new();
    out.push(PAYLOAD_VERSION);
    push_be(&mut out, header.len() as u64, 4);
    append_bytes(&mut out, header);
    push_be(&mut out, body.len() as u64, 4);
    append_bytes(&mut out, body);
    assert(out@ =~= frame_of(header@, body@));
    Ok(out)
}

fn copy_range(b: &[u8], start: usize, end: usize) -> (r: Vec<u8>)
    requires
        start <= end <= b@.len(),
    ensures
        r@ == b@.subrange(start as int, end as int),
{
    crate::bytes::copy_bytes(&b[start..end])
}

/// Reads a frame into its header and body.
pub fn decode_frame(bytes: &[u8]) -> (r: Result<(Vec<u8>, Vec<u8>), Error>)
    ensures
        match parse_frame(bytes@) {
            Ok((h, b)) => r matches Ok((hv, bv)) && hv@ == h && bv@ == b,
            Err(e) => r == Err::<(Vec<u8>, Vec<u8>), Error>(e),
        },
{
    let n = bytes.len();
    if n == 0 {
        return Err(Error::Decode);
    }
    if bytes[0] != PAYLOAD_VERSION {
        return Err(Error::UnsupportedVersion);
    }
    if n < 5 {
        return Err(Error::Decode);
    }
    let hl = parse_be(bytes, 1, 5);
    proof {
        crate::did::lemma_be_value_bound(bytes@.subrange(1, 5));
        reveal_with_fuel(pow256, 5);
    }
    if (n as u128) < 9 + hl {
        return Err(Error::Decode);
    }
    let h_end = 5 + hl as usize;
    let bl = parse_be(bytes, h_end, h_end + 4);
    proof {
        crate::did::lemma_be_value_bound(bytes@.subrange(h_end as int, h_end + 4));
    }
    if (n as u128) != 9 + hl + bl {
        return Err(Error::Decode);
    }
    let header = copy_range(bytes, 5, h_end);
    let body = copy_range(bytes, h_end + 4, n);
    Ok((header, body))
}

/// Relies on `rand::random`: 32 bytes from the thread's random number generator.
#[verifier::external_body]
fn random_tx_id() -> (r: Vec<u8>)
    ensures
        r@.len() == 32,
{
    rand::random::<[u8; 32]>().to_vec()
}

/// A routed payload: who sent it to whom, where it has been, the proof of its
/// origin, and its serialized body.
#[derive(Debug)]
pub struct MessagePayload {
    /// 32-byte identifier of the transaction.
    pub tx_id: Vec<u8>,
    /// What the body holds.
    pub message_type: u16,
    /// The node that created the payload.
    pub origin: Did,
    /// The node it is addressed to.
    pub destination: Did,
    /// The nodes that relayed it, in order.
    pub path: Vec<Did>,
    /// The node it was last sent to.
    pub next_hop: Option<Did>,
    /// The origin's proof over the body.
    pub verification: MessageVerification,
    /// The body in its canonical serialized form.
    pub body: String,
}

/// What a node does with an inbound payload.
#[derive(Debug, PartialEq, Eq)]
pub enum Inbound {
    /// It is addressed here: hand it to the callback for its type.
    Deliver,
    /// Send it on to this node.
    Forward(Did),
    /// Drop it, for this reason.
    Drop(Error),
}

impl MessagePayload {
    /// The outcome of checking the payload's proof at `now`: the origin must be the
    /// signing session, and the session must hold and have signed the body.
    pub open spec fn check_at(&self, now: nat) -> Result<(), Error> {
        if self.origin != self.verification@.session.session_id {
            Err(Error::VerifyOriginMismatch)
        } else if !self.verification@.accepts_at(now, self.body@) {
            Err(Error::VerifySignatureFailed)
        } else {
            Ok(())
        }
    }

    /// A payload from this session's node to `destination`, signed at `ts_ms` for
    /// `ttl_ms`, under the transaction identifier `tx_id`.
    pub fn with_tx_id(
        sm: &SessionManager,
        tx_id: Vec<u8>,
        message_type: u16,
        destination: Did,
        body: String,
        ts_ms: u128,
        ttl_ms: usize,
    ) -> (r: Result<MessagePayload, Error>)
        ensures
            r matches Ok(p) && p.tx_id@ == tx_id@ && p.message_type == message_type
                && p.origin == sm@.session.session_id && p.destination == destination
                && p.path@.len() == 0 && p.next_hop is None && p.body@ == body@
                && p.verification@.session == sm@.session && p.verification@.ts_ms == ts_ms
                && p.verification@.ttl_ms == ttl_ms,
            r matches Ok(p) ==> p.verification@.session.signs(
                p.verification@.signed_bytes(body@),
                p.verification@.sig,
            ),
            r matches Ok(p) ==> forall|now: nat|
                #![trigger p.verification@.accepts_at(now, body@)]
                sm@.session.check_at(now) is Ok ==> p.verification@.accepts_at(now, body@),
    {
        let verification = match MessageVerification::sign(sm, body.as_str(), ts_ms, ttl_ms) {
            Ok(v) => v,
            Err(e) => return Err(e),
        };
        let origin = verification.session.session_id;
        Ok(MessagePayload {
            tx_id,
            message_type,
            origin,
            destination,
            path: Vec::new(),
            next_hop: None,
            verification,
            body,
        })
    }

    /// A payload with a fresh random transaction identifier, signed now.
    pub fn new(
        sm: &SessionManager,
        message_type: u16,
        destination: Did,
        body: String,
        ttl_ms: usize,
    ) -> (r: Result<MessagePayload, Error>)
        ensures
            r matches Ok(p) && p.tx_id@.len() == 32 && p.message_type == message_type && p.origin
                == sm@.session.session_id && p.destination == destination && p.path@.len() == 0
                && p.next_hop is None && p.body@ == body@ && p.verification@.session
                == sm@.session && p.verification@.ttl_ms == ttl_ms,
            r matches Ok(p) ==> p.verification@.session.signs(
                p.verification@.signed_bytes(body@),
                p.verification@.sig,
            ),
            r matches Ok(p) ==> forall|now: nat|
                #![trigger p.verification@.accepts_at(now, body@)]
                sm@.session.check_at(now) is Ok ==> p.verification@.accepts_at(now, body@),
    {
        let tx_id = random_tx_id();
        Self::with_tx_id(sm, tx_id, message_type, destination, body, now_ms(), ttl_ms)
    }

    /// The origin's proof holds at `now_ms`: the origin is the signing session, and the
    /// session signed the body.
    pub fn verify_at(&self, now_ms: u128) -> (r: Result<(), Error>)
        ensures
            r == self.check_at(now_ms as nat),
    {
        if self.origin != self.verification.session.session_id {
            return Err(Error::VerifyOriginMismatch);
        }
        if !self.verification.verify_at(now_ms, self.body.as_str()) {
            return Err(Error::VerifySignatureFailed);
        }
        Ok(())
    }

    /// The origin's proof holds now.
    pub fn verify(&self) -> (r: Result<(), Error>)
        ensures
            self.origin != self.verification@.session.session_id ==> r == Err::<(), Error>(
                Error::VerifyOriginMismatch,
            ),
            r is Ok ==> exists|now: nat| self.verification@.accepts_at(now, self.body@),
            exists|now: nat| r == #[trigger] self.check_at(now),
    {
        self.verify_at(now_ms())
    }

    /// The identifier under which the sender of a handshake payload is registered:
    /// always the session that signed it, once its proof check passed.
    pub fn remote_did(&self, checked: Result<(), Error>) -> (r: Result<Did, Error>)
        ensures
            r == match checked {
                Err(e) => Err::<Did, Error>(e),
                Ok(_) => Ok::<Did, Error>(self.verification@.session.session_id),
            },
    {
        match checked {
            Err(e) => Err(e),
            Ok(()) => Ok(self.verification.session.session_id),
        }
    }

    /// Records that `me` relays the payload on to `next`.
    pub fn relay(&mut self, me: Did, next: Did)
        ensures
            final(self).path@ == old(self).path@.push(me),
            final(self).next_hop == Some(next),
            final(self).origin == old(self).origin,
            final(self).destination == old(self).destination,
            final(self).tx_id@ == old(self).tx_id@,
            final(self).body@ == old(self).body@,
            final(self).verification@ == old(self).verification@,
            forall|now: nat|
                #![trigger final(self).check_at(now)]
                final(self).check_at(now) == old(self).check_at(now),
    {
        self.path.push(me);
        self.next_hop = Some(next);
    }
}

impl ChordState {
    /// Decides what to do with an inbound payload, given the outcome of its proof check
    /// and the bound on its relay path.
    pub fn route_inbound(&self, payload: &MessagePayload, checked: Result<(), Error>, max_path: usize) -> (r: Inbound)
        requires
            self@.wf(),
        ensures
            checked matches Err(e) ==> r == Inbound::Drop(e),
            checked is Ok && payload.destination == self@.did ==> r == Inbound::Deliver,
            checked is Ok && payload.destination != self@.did && payload.path@.len() >= max_path
                ==> r == Inbound::Drop(Error::RelayLoop),
            checked is Ok && payload.destination != self@.did && payload.path@.len() < max_path
                ==> {
                if self@.successors.len() == 0 {
                    r == Inbound::Drop(Error::NoNextHop)
                } else {
                    let s0 = self@.successors[0];
                    if between(self@.did, payload.destination, s0) || payload.destination == s0 {
                        r == Inbound::Forward(s0)
                    } else {
                        r matches Inbound::Forward(next) && closest_preceding(
                            self@,
                            payload.destination,
                            next,
                        )
                    }
                }
            },
    {
        if let Err(e) = checked {
            return Inbound::Drop(e);
        }
        if payload.destination == self.did() {
            return Inbound::Deliver;
        }
        if payload.path.len() >= max_path {
            return Inbound::Drop(Error::RelayLoop);
        }
        match self.find_successor(payload.destination) {
            Ok(Lookup::Found(x)) => Inbound::Forward(x),
            Ok(Lookup::Forward { next, .. }) => Inbound::Forward(next),
            Err(_) => Inbound::Drop(Error::NoNextHop),
        }
    }
}

} // verus!
