//! Codec for the binary save-file format of a turn-based strategy game.
//!
//! A save file is only partially reverse-engineered: the codec decodes the
//! spans it understands into typed fields and captures every span it does not
//! understand verbatim, so that re-encoding an unmodified model reproduces the
//! original file byte for byte.

pub mod assets;
pub mod save;
pub mod soldier;
pub mod stats;
pub mod wire;

use vstd::prelude::*;

verus! {

/// A structural fault found while decoding a save file or a soldier record.
/// Decoding is all-or-nothing: the first fault aborts the whole decode.
#[derive(Clone, Copy, Debug, PartialEq, Eq, Structural)]
pub enum DecodeError {
    /// A length-prefixed or fixed-width field extends past the end of the input.
    TruncatedInput,
    /// An expected literal marker is absent from the remaining input.
    MarkerNotFound,
    /// A field that must be UTF-8 text holds invalid byte sequences.
    InvalidEncoding,
    /// A single-byte enumeration field holds a value outside its legal set.
    InvalidEnum,
}

} // verus!
