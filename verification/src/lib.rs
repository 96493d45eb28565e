//! Core of a newline-delimited RPC protocol spoken with a long-lived child
//! process over a duplex byte pipe: line reconstruction from arbitrary byte
//! chunks, classification of each line as an event or a reply, and exactly-once
//! correlation of replies to outstanding calls.

pub mod demux;
pub mod wire;
pub mod classify;
pub mod correlator;

use vstd::prelude::*;

verus! {

/// Byte value of the line-feed delimiter that terminates every protocol frame.
pub const NL: u8 = 10;

/// Byte value of the carriage return that may precede the delimiter.
pub const CR: u8 = 13;

} // verus!
