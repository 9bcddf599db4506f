//! Core of a peer-to-peer overlay node: 160-bit ring identifiers, four signature
//! schemes, delegated sessions, signed and framed payloads, and the Chord routing
//! state with its virtual-node store.

pub mod bip137;
pub mod bytes;
pub mod chord;
pub mod did;
pub mod ecc;
pub mod ed25519;
pub mod eip191;
pub mod error;
pub mod payload;
pub mod secp256k1;
pub mod session;
pub mod text;
pub mod verification;
pub mod vnode;
