//! Heap-size discovery for an on-chain program's entrypoint input, and a bump
//! allocator that hands out the discovered heap region.
//!
//! The parsers work on the raw bytes that the runtime hands to the
//! entrypoint and never allocate.  The allocator is modelled over an
//! explicit heap region whose bytes it owns.

pub mod bytes;
pub mod compute_budget;
pub mod instructions;
pub mod accounts;
pub mod entrypoint;
pub mod ptr;
pub mod bump;
