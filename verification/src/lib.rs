//! A minimal social-graph and content store kept in ledger-backed records.
//!
//! Each actor owns a follower-list record and an append-only sequence of post
//! records.  Every record lives at an address derived deterministically from
//! the owner's identifier and a seed label, so the program can prove write
//! authority over a record without holding a private credential for it.
//!
//! The crate verifies the record store itself: address derivation and
//! verification, storage footprint computation, the byte-exact codecs for the
//! two record kinds, and the follow / unfollow / post mutations.  The external
//! ledger that allocates buffers, charges fee deposits and enforces ownership
//! is reached by the (unverified) runtime around this library.

pub mod addressing;
pub mod codec;
pub mod error;
pub mod ids;
pub mod instruction;
pub mod processor;
pub mod state;
