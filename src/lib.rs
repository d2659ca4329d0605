//! Formats received messages and carries them across a C-style string boundary.
//!
//! The verified core lives here: the formatter, the folding of a storage
//! outcome into the reply text, and the byte-level decoding and encoding that
//! the foreign boundary performs.
use vstd::prelude::*;

pub mod boundary;
pub mod format;
pub mod record;

verus! {

} // verus!
