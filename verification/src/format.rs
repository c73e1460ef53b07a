//! The point-format code: which optional fields a point record carries and
//! its resulting fixed length.

use vstd::prelude::*;

verus! {

/// The length in bytes of the fields every point record carries.
pub const BASE_RECORD_LENGTH: u16 = 20;

/// One of the four recognized point-format codes. The code selects whether a
/// record carries a GPS time and whether it carries a color triple, and with
/// that its fixed record length.
#[derive(Clone, Copy, Debug, PartialEq, Eq, Structural)]
pub enum PointFormat {
    /// Code 0: the base fields only.
    Format0,
    /// Code 1: the base fields followed by a GPS time.
    Format1,
    /// Code 2: the base fields followed by a color triple.
    Format2,
    /// Code 3: the base fields followed by a GPS time and a color triple.
    Format3,
}

impl PointFormat {
    /// Whether records of this format carry a GPS time.
    pub open spec fn spec_has_time(self) -> bool {
        self is Format1 || self is Format3
    }

    /// Whether records of this format carry a color triple.
    pub open spec fn spec_has_color(self) -> bool {
        self is Format2 || self is Format3
    }

    /// The numeric code of the format on the wire.
    pub open spec fn spec_code(self) -> u8 {
        match self {
            PointFormat::Format0 => 0,
            PointFormat::Format1 => 1,
            PointFormat::Format2 => 2,
            PointFormat::Format3 => 3,
        }
    }

    /// The fixed record length the format prescribes: the base fields plus
    /// eight bytes of GPS time and six bytes of color where present.
    pub open spec fn spec_record_length(self) -> u16 {
        (BASE_RECORD_LENGTH + if self.spec_has_time() { 8int } else { 0 }
            + if self.spec_has_color() { 6int } else { 0 }) as u16
    }

    /// Whether records of this format carry a GPS time.
    pub fn has_time(self) -> (r: bool)
        ensures
            r == self.spec_has_time(),
    {
        match self {
            PointFormat::Format1 | PointFormat::Format3 => true,
            _ => false,
        }
    }

    /// Whether records of this format carry a color triple.
    pub fn has_color(self) -> (r: bool)
        ensures
            r == self.spec_has_color(),
    {
        match self {
            PointFormat::Format2 | PointFormat::Format3 => true,
            _ => false,
        }
    }

    /// The numeric code of the format on the wire.
    pub fn code(self) -> (r: u8)
        ensures
            r == self.spec_code(),
    {
        match self {
            PointFormat::Format0 => 0,
            PointFormat::Format1 => 1,
            PointFormat::Format2 => 2,
            PointFormat::Format3 => 3,
        }
    }

    /// The format for a wire code, or `None` for an unrecognized code.
    pub fn from_code(code: u8) -> (r: Option<PointFormat>)
        ensures
            match r {
                Some(f) => f.spec_code() == code,
                None => code > 3,
            },
    {
        match code {
            0 => Some(PointFormat::Format0),
            1 => Some(PointFormat::Format1),
            2 => Some(PointFormat::Format2),
            3 => Some(PointFormat::Format3),
            _ => None,
        }
    }

    /// The fixed record length the format prescribes.
    pub fn record_length(self) -> (r: u16)
        ensures
            r == self.spec_record_length(),
    {
        match self {
            PointFormat::Format0 => 20,
            PointFormat::Format1 => 28,
            PointFormat::Format2 => 26,
            PointFormat::Format3 => 34,
        }
    }
}

} // verus!
