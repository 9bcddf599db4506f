//! Error kinds of the library.

use vstd::prelude::*;

verus! {

/// What went wrong, by kind.
#[derive(Clone, Copy, Debug, PartialEq, Eq, Structural)]
pub enum Error {
    /// A signature that cannot be parsed or does not recover a key.
    BadSignature,
    /// A recovery id outside the range a signature scheme allows.
    BadRecoveryId,
    /// Bytes that are not a point or scalar of the curve.
    CurveError,
    /// A signature that does not match the claimed signer.
    VerifySignatureFailed,
    /// A payload whose origin is not the session that signed it.
    VerifyOriginMismatch,
    /// A session whose lifetime has passed.
    SessionExpired,
    /// An authorizer type that names no known scheme.
    UnknownAuthorizer,
    /// Text that is not a valid identifier.
    InvalidDid,
    /// Text or bytes that are not a valid public key.
    InvalidPublicKey,
    /// A string that is not valid base58-check.
    Decode,
    /// Bytes that do not decode to the expected value.
    Deserialize,
    /// A frame tagged with a version this library does not know.
    UnsupportedVersion,
    /// A value that cannot be encoded.
    EncodeError,
    /// No transport leads towards the destination.
    NoNextHop,
    /// A payload that has been relayed more often than the ring allows.
    RelayLoop,
    /// A remote lookup or a handshake phase that ran out of time.
    Timeout,
    /// The transport was closed.
    TransportClosed,
    /// ICE could not connect.
    IceFailed,
    /// The node has no predecessor.
    PredecessorMissing,
    /// The node has no successor.
    SuccessorListEmpty,
}

} // verus!
