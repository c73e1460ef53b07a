//! A codec for a geospatial point-cloud binary format: a fixed-size header,
//! a run of variable-length metadata records, and a run of fixed-stride point
//! records. The library converts between the on-disk byte layout and an
//! in-memory representation, and proves the layout exact: every field's byte
//! position, the bit-packed flag bytes, the conditional fields keyed by the
//! point-format code, and the derived header statistics.
//!
//! Double-precision values (coordinates, scale factors, offsets, bounds, GPS
//! time) are carried as their IEEE-754 bit patterns, since verified code does
//! no floating-point arithmetic. The scale transform between real-world
//! coordinates and the stored fixed-point integers is IEEE arithmetic and is
//! left to the embedding application; a point therefore carries both forms.

pub mod bytes;
pub mod error;
pub mod file;
pub mod format;
pub mod packing;
pub mod point;
pub mod record;
pub mod header;
pub mod vlr;
