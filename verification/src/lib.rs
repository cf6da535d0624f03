//! A safe, typed view of a kernel-maintained statistics chain.
//!
//! The kernel exports its statistics as a linked chain of C-shaped records,
//! each carrying fixed-length text buffers, a type tag and an untyped payload.
//! This crate models one snapshot of that chain as plain values ([`raw::RawRecord`])
//! and provides the verified translation layer on top of it: walking the chain
//! ([`Ctl::iter`]), selecting records ([`Ctl::filter`]), and decoding a record's
//! payload into a typed value ([`Ctl::read`], [`data::Data`]) with full tag and
//! bounds validation.
//!
//! Acquiring a snapshot from a live kernel is platform-specific, unsafe work
//! that stays outside this crate; everything here operates on the snapshot
//! values alone.

use vstd::prelude::*;

pub mod chain;
pub mod data;
pub mod laws;
pub mod order;
pub mod raw;
pub mod types;

verus! {

/// Kinds of errors returned by the library.
#[derive(Clone, Copy, Debug, PartialEq, Eq, Structural)]
pub enum Error {
    /// A text field was not valid UTF-8.
    InvalidString,
    /// An unrecognized outer record type tag.
    InvalidType(u8),
    /// An unrecognized data type tag on a named entry.
    InvalidNamedType(u8),
    /// A record or payload that should be present was absent.
    NullData,
    /// The operating-system error code of a failed kernel call.
    Io(i32),
    /// A payload whose size or shape contradicts the record's declared type,
    /// violating the kernel's binary contract.
    SizeMismatch,
}

} // verus!
