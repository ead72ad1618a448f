//! Decode failures. Any violation of an expected table protocol is fatal
//! and aborts the whole decode: a partially decoded layout would silently
//! mistype, so no partial result is ever returned.

use vstd::prelude::*;

verus! {

/// Why a decode was aborted.
#[derive(Clone, Copy, Debug, PartialEq, Eq, Structural)]
pub enum DecodeError {
    /// A table, row or string lies outside the source region.
    OutOfBounds,
    /// A typing row group declares a row stride of zero, which could never
    /// reach its terminator.
    ZeroRowStride,
    /// A row carries the dead-key sentinel but the row after it is missing
    /// or does not carry the partner marker (virtual-key byte 0xFF).
    MissingDeadKeyRow,
    /// A typing column references a modification number that the modifier
    /// tables do not define.
    UnknownModificationNumber,
    /// A ligature sentinel or a non-zero ligature count was met; ligatures
    /// are recognized but unsupported, and skipping them silently would
    /// lose data.
    UnsupportedLigature,
}

} // verus!
