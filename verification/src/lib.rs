//! A verifiable key/value store: an ordered collection of values mirrored
//! into a Merkle accumulator, whose root digest commits to the exact value
//! sequence, together with the host/guest pieces of a membership-proof
//! protocol built on top of it.

pub mod hashing;
pub mod merkle;
pub mod protocol;
pub mod storage;
