//! Memory and communication substrate for a cooperative embedded kernel.
//!
//! The crate provides the kernel's core resource-management logic as
//! verified state machines over plain values:
//!
//! - [`heap`]: a fixed-size heap allocator's bookkeeping, with a FIFO queue
//!   of parked allocation requests for callers that opt into suspension.
//! - [`containers`]: owned container shapes built on the allocator: an
//!   exclusively-owned box, a reference-counted shared cell, a raw
//!   fixed-length array, and a capacity-bounded vector that never
//!   reallocates.
//! - [`ring`]: a framed byte ring buffer with a grant/commit/read/release
//!   protocol, split once into one producer half and one consumer half.
//! - [`channel`]: a bounded FIFO queue of typed request envelopes, each
//!   carrying a single-use reply destination.
//! - [`registry`]: a key-to-handle map through which services publish the
//!   channel handle on which they accept requests.

pub mod channel;
pub mod containers;
pub mod heap;
pub mod registry;
pub mod ring;
