//! One measured sample: the wire-level record together with the real-world
//! coordinates it stands for.
//!
//! Verified code does no IEEE-754 arithmetic, so a coordinate is carried
//! twice: as the bit pattern of the real-world double (used for the
//! bounding box) and, inside the record, as the fixed-point integer stored
//! on disk. The scale transform relating the two is the embedding
//! application's contract; this codec preserves and compares both forms
//! exactly as given.

use vstd::prelude::*;
use crate::record::{spec_record_default, PointRecord, SpecRecord};

verus! {

/// One point: its real-world coordinates as IEEE-754 bit patterns, and the
/// wire record holding the rest of its fields and its fixed-point form.
#[derive(Clone, Debug)]
pub struct Point {
    /// The x coordinate's bit pattern.
    pub x_bits: u64,
    /// The y coordinate's bit pattern.
    pub y_bits: u64,
    /// The z coordinate's bit pattern.
    pub z_bits: u64,
    /// The wire-level fields, the fixed-point coordinates included.
    pub record: PointRecord,
}

/// The mathematical model of a point.
#[verifier::ext_equal]
pub struct SpecPoint {
    pub x_bits: u64,
    pub y_bits: u64,
    pub z_bits: u64,
    pub record: SpecRecord,
}

impl View for Point {
    type V = SpecPoint;

    open spec fn view(&self) -> SpecPoint {
        SpecPoint {
            x_bits: self.x_bits,
            y_bits: self.y_bits,
            z_bits: self.z_bits,
            record: self.record@,
        }
    }
}

impl Point {
    /// A point at the origin with every other field zero or absent.
    pub fn new() -> (r: Point)
        ensures
            r@.x_bits == 0 && r@.y_bits == 0 && r@.z_bits == 0,
            r@.record == spec_record_default(),
            r@.record.wf(),
    {
        Point { x_bits: 0, y_bits: 0, z_bits: 0, record: PointRecord::new() }
    }
}

/// A total-order key on IEEE-754 double bit patterns: negative values are
/// reversed and placed below non-negative ones, so that on every pair of
/// non-NaN doubles — infinities included — the unsigned order of the keys
/// coincides with the usual order of the doubles (the two zeros, which the
/// usual order equates, stand here as distinct neighbors).
pub open spec fn spec_f64_key(bits: u64) -> u64 {
    if bits & 0x8000_0000_0000_0000 != 0 {
        !bits
    } else {
        bits | 0x8000_0000_0000_0000
    }
}

/// Whether one double bit pattern stands strictly below another in the
/// total coordinate order.
pub open spec fn spec_f64_below(a: u64, b: u64) -> bool {
    spec_f64_key(a) < spec_f64_key(b)
}

/// Compares two double bit patterns in the total coordinate order.
pub fn f64_below(a: u64, b: u64) -> (r: bool)
    ensures
        r == spec_f64_below(a, b),
{
    let ka = if a & 0x8000_0000_0000_0000 != 0 {
        !a
    } else {
        a | 0x8000_0000_0000_0000
    };
    let kb = if b & 0x8000_0000_0000_0000 != 0 {
        !b
    } else {
        b | 0x8000_0000_0000_0000
    };
    ka < kb
}

} // verus!
