//! Fixed-capacity audio bridge.
//!
//! [`ring::AudioBlockRing`] builds one producer and one consumer for a bounded,
//! planar audio-block queue. The producer is intended for a plugin's audio
//! thread: its `try_push` never allocates, locks, waits, or performs I/O. If
//! every slot is busy it returns `PushError::Full`, so the producer can drop
//! that block rather than compromise real-time audio. The consumer supplies its
//! own preallocated planar destination.
//!
//! Samples travel as the bit patterns of 32-bit floats.
//!
//! The slot protocol is written once, over any [`protocol::BlockMemory`]. On
//! memory that one owner holds, [`owned::OwnedBlockRing`], it is a first-in,
//! first-out queue. The endpoints run the same protocol over memory that two
//! threads share; each records its accesses, and [`concurrent`] shows that
//! blocks arrive in order however the accesses of the two fall between each
//! other. [`calls`] says what that makes of each call: while the other end is at
//! rest, the two are the ends of a first-in, first-out queue.

pub mod blocks;
pub mod calls;
pub mod concurrent;
pub mod owned;
pub mod protocol;
pub mod ring;
pub mod shared;
pub mod trace;
