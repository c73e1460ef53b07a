//! The errors the codec reports. Every failure is fail-fast: the first error
//! aborts the whole file-level operation, and nothing is defaulted in.

use vstd::prelude::*;
use crate::format::PointFormat;

verus! {

/// An optional point field that a format can require.
#[derive(Clone, Copy, Debug, PartialEq, Eq, Structural)]
pub enum MissingField {
    /// The GPS time of a time-bearing format.
    GpsTime,
    /// The red channel of a color-bearing format.
    Red,
    /// The green channel of a color-bearing format.
    Green,
    /// The blue channel of a color-bearing format.
    Blue,
}

/// A codec failure.
#[derive(Clone, Copy, Debug, PartialEq, Eq, Structural)]
pub enum Error {
    /// Fewer bytes were available than a record demands.
    ShortRead,
    /// The stream declares a point-format code outside the recognized range.
    UnknownPointFormat(u8),
    /// A field the active point format requires is absent from a point, found
    /// at encode time.
    PointFormatMismatch(PointFormat, MissingField),
    /// A real-world coordinate falls outside the range the fixed-point
    /// encoding can hold for the chosen scale and offset; reported by the
    /// embedding application's scale transform.
    CoordinateOutOfRange,
}

} // verus!
