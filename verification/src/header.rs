//! The file header: the declared sizes and offsets, the point-format code,
//! the scale and offset of each axis, the bounding box, and the point
//! counts. Doubles are held and written as IEEE-754 bit patterns.
//!
//! The serialized header is a fixed run of little-endian fields. A stream
//! may declare a larger `header_size` than this run; the bytes between the
//! run and the declared size are padding the codec skips on read and never
//! writes, since it recomputes `header_size` to the run's own length.

use vstd::prelude::*;
use crate::bytes::{
    spec_u16_bytes, spec_u16_le, spec_u32_bytes, spec_u32_le, spec_u64_bytes, spec_u64_le,
    push_u16_le, push_u32_le, push_u64_le, read_u16_le, read_u32_le, read_u64_le,
    lemma_u16_round_trip, lemma_u32_round_trip, lemma_u64_round_trip,
};
use crate::error::Error;
use crate::format::PointFormat;

verus! {

/// The length in bytes of the serialized header fields.
pub const HEADER_SIZE: u16 = 133;

/// The IEEE-754 bit pattern of the double one, the default scale factor.
pub const F64_ONE_BITS: u64 = 0x3FF0_0000_0000_0000;

/// The IEEE-754 bit pattern of positive infinity, the bound minima of a
/// file with no points.
pub const F64_POS_INF_BITS: u64 = 0x7FF0_0000_0000_0000;

/// The IEEE-754 bit pattern of negative infinity, the bound maxima of a
/// file with no points.
pub const F64_NEG_INF_BITS: u64 = 0xFFF0_0000_0000_0000;

/// The per-file metadata. The write path recomputes every derived field
/// (sizes, offsets, counts, bounds) from the owned data just before
/// serialization; the read path copies all fields verbatim from the stream.
#[derive(Clone, Copy, Debug, PartialEq, Eq, Structural)]
pub struct Header {
    /// The declared byte length of the header block, padding included.
    pub header_size: u16,
    /// The declared byte offset of the first point record.
    pub offset_to_point_data: u32,
    /// How many variable-length metadata records follow the header.
    pub number_of_vlrs: u32,
    /// The active point-format code.
    pub point_data_format: PointFormat,
    /// The declared byte stride of one point record.
    pub point_data_record_length: u16,
    /// The declared number of point records.
    pub number_of_point_records: u32,
    /// How many points are first returns.
    pub points_by_return_1: u32,
    /// How many points are second returns.
    pub points_by_return_2: u32,
    /// How many points are third returns.
    pub points_by_return_3: u32,
    /// How many points are fourth returns.
    pub points_by_return_4: u32,
    /// How many points are fifth returns.
    pub points_by_return_5: u32,
    /// The x-axis scale factor's bit pattern.
    pub x_scale_bits: u64,
    /// The y-axis scale factor's bit pattern.
    pub y_scale_bits: u64,
    /// The z-axis scale factor's bit pattern.
    pub z_scale_bits: u64,
    /// The x-axis offset's bit pattern.
    pub x_offset_bits: u64,
    /// The y-axis offset's bit pattern.
    pub y_offset_bits: u64,
    /// The z-axis offset's bit pattern.
    pub z_offset_bits: u64,
    /// The least x coordinate's bit pattern.
    pub x_min_bits: u64,
    /// The greatest x coordinate's bit pattern.
    pub x_max_bits: u64,
    /// The least y coordinate's bit pattern.
    pub y_min_bits: u64,
    /// The greatest y coordinate's bit pattern.
    pub y_max_bits: u64,
    /// The least z coordinate's bit pattern.
    pub z_min_bits: u64,
    /// The greatest z coordinate's bit pattern.
    pub z_max_bits: u64,
}

impl Header {
    /// A fresh header: format 0, unit scale, zero offset, nothing counted.
    pub fn new() -> (r: Header)
        ensures
            r == Header::spec_default(),
    {
        Header {
            header_size: HEADER_SIZE,
            offset_to_point_data: HEADER_SIZE as u32,
            number_of_vlrs: 0,
            point_data_format: PointFormat::Format0,
            point_data_record_length: 20,
            number_of_point_records: 0,
            points_by_return_1: 0,
            points_by_return_2: 0,
            points_by_return_3: 0,
            points_by_return_4: 0,
            points_by_return_5: 0,
            x_scale_bits: F64_ONE_BITS,
            y_scale_bits: F64_ONE_BITS,
            z_scale_bits: F64_ONE_BITS,
            x_offset_bits: 0,
            y_offset_bits: 0,
            z_offset_bits: 0,
            x_min_bits: 0,
            x_max_bits: 0,
            y_min_bits: 0,
            y_max_bits: 0,
            z_min_bits: 0,
            z_max_bits: 0,
        }
    }

    /// The value `new` returns.
    pub open spec fn spec_default() -> Header {
        Header {
            header_size: HEADER_SIZE,
            offset_to_point_data: HEADER_SIZE as u32,
            number_of_vlrs: 0,
            point_data_format: PointFormat::Format0,
            point_data_record_length: 20,
            number_of_point_records: 0,
            points_by_return_1: 0,
            points_by_return_2: 0,
            points_by_return_3: 0,
            points_by_return_4: 0,
            points_by_return_5: 0,
            x_scale_bits: F64_ONE_BITS,
            y_scale_bits: F64_ONE_BITS,
            z_scale_bits: F64_ONE_BITS,
            x_offset_bits: 0,
            y_offset_bits: 0,
            z_offset_bits: 0,
            x_min_bits: 0,
            x_max_bits: 0,
            y_min_bits: 0,
            y_max_bits: 0,
            z_min_bits: 0,
            z_max_bits: 0,
        }
    }
}

/// The serialized header fields, in wire order.
pub open spec fn spec_header_bytes(h: Header) -> Seq<u8> {
    spec_u16_bytes(h.header_size) + spec_u32_bytes(h.offset_to_point_data) + spec_u32_bytes(
        h.number_of_vlrs,
    ) + seq![h.point_data_format.spec_code()] + spec_u16_bytes(h.point_data_record_length)
        + spec_u32_bytes(h.number_of_point_records) + spec_u32_bytes(h.points_by_return_1)
        + spec_u32_bytes(h.points_by_return_2) + spec_u32_bytes(h.points_by_return_3)
        + spec_u32_bytes(h.points_by_return_4) + spec_u32_bytes(h.points_by_return_5)
        + spec_u64_bytes(h.x_scale_bits) + spec_u64_bytes(h.y_scale_bits) + spec_u64_bytes(
        h.z_scale_bits,
    ) + spec_u64_bytes(h.x_offset_bits) + spec_u64_bytes(h.y_offset_bits) + spec_u64_bytes(
        h.z_offset_bits,
    ) + spec_u64_bytes(h.x_min_bits) + spec_u64_bytes(h.x_max_bits) + spec_u64_bytes(h.y_min_bits)
        + spec_u64_bytes(h.y_max_bits) + spec_u64_bytes(h.z_min_bits) + spec_u64_bytes(
        h.z_max_bits,
    )
}

/// The serialized header fields fill exactly the header's fixed length.
pub proof fn lemma_header_bytes_len(h: Header)
    ensures
        spec_header_bytes(h).len() == HEADER_SIZE,
{
}

/// The header a stream's first bytes hold: a short read when the stream
/// cannot hold the fixed fields, the unknown-format error for an
/// unrecognized point-format code, the fields verbatim otherwise.
pub open spec fn spec_parse_header(s: Seq<u8>) -> Result<Header, Error> {
    if s.len() < HEADER_SIZE {
        Err(Error::ShortRead)
    } else if s[10] > 3 {
        Err(Error::UnknownPointFormat(s[10]))
    } else {
        Ok(
            Header {
                header_size: spec_u16_le(s.subrange(0, 2)),
                offset_to_point_data: spec_u32_le(s.subrange(2, 6)),
                number_of_vlrs: spec_u32_le(s.subrange(6, 10)),
                point_data_format: if s[10] == 0 {
                    PointFormat::Format0
                } else if s[10] == 1 {
                    PointFormat::Format1
                } else if s[10] == 2 {
                    PointFormat::Format2
                } else {
                    PointFormat::Format3
                },
                point_data_record_length: spec_u16_le(s.subrange(11, 13)),
                number_of_point_records: spec_u32_le(s.subrange(13, 17)),
                points_by_return_1: spec_u32_le(s.subrange(17, 21)),
                points_by_return_2: spec_u32_le(s.subrange(21, 25)),
                points_by_return_3: spec_u32_le(s.subrange(25, 29)),
                points_by_return_4: spec_u32_le(s.subrange(29, 33)),
                points_by_return_5: spec_u32_le(s.subrange(33, 37)),
                x_scale_bits: spec_u64_le(s.subrange(37, 45)),
                y_scale_bits: spec_u64_le(s.subrange(45, 53)),
                z_scale_bits: spec_u64_le(s.subrange(53, 61)),
                x_offset_bits: spec_u64_le(s.subrange(61, 69)),
                y_offset_bits: spec_u64_le(s.subrange(69, 77)),
                z_offset_bits: spec_u64_le(s.subrange(77, 85)),
                x_min_bits: spec_u64_le(s.subrange(85, 93)),
                x_max_bits: spec_u64_le(s.subrange(93, 101)),
                y_min_bits: spec_u64_le(s.subrange(101, 109)),
                y_max_bits: spec_u64_le(s.subrange(109, 117)),
                z_min_bits: spec_u64_le(s.subrange(117, 125)),
                z_max_bits: spec_u64_le(s.subrange(125, 133)),
            },
        )
    }
}

/// The counting and size fields of a header's wire bytes read back as
/// written.
#[verifier::rlimit(100)]
proof fn lemma_header_fields_front(h: Header, s: Seq<u8>)
    requires
        s.len() >= HEADER_SIZE,
        s.subrange(0, HEADER_SIZE as int) == spec_header_bytes(h),
    ensures
        spec_u16_le(s.subrange(0, 2)) == h.header_size,
        spec_u32_le(s.subrange(2, 6)) == h.offset_to_point_data,
        spec_u32_le(s.subrange(6, 10)) == h.number_of_vlrs,
        s[10] == h.point_data_format.spec_code(),
        spec_u16_le(s.subrange(11, 13)) == h.point_data_record_length,
        spec_u32_le(s.subrange(13, 17)) == h.number_of_point_records,
        spec_u32_le(s.subrange(17, 21)) == h.points_by_return_1,
        spec_u32_le(s.subrange(21, 25)) == h.points_by_return_2,
        spec_u32_le(s.subrange(25, 29)) == h.points_by_return_3,
        spec_u32_le(s.subrange(29, 33)) == h.points_by_return_4,
        spec_u32_le(s.subrange(33, 37)) == h.points_by_return_5,
{
    let w = spec_header_bytes(h);
    assert(forall|i: int| 0 <= i < HEADER_SIZE ==> s[i] == w[i]) by {
        assert(forall|i: int|
            0 <= i < HEADER_SIZE ==> s[i] == s.subrange(0, HEADER_SIZE as int)[i]);
    }
    assert(s.subrange(0, 2) =~= spec_u16_bytes(h.header_size));
    assert(s.subrange(2, 6) =~= spec_u32_bytes(h.offset_to_point_data));
    assert(s.subrange(6, 10) =~= spec_u32_bytes(h.number_of_vlrs));
    assert(s.subrange(11, 13) =~= spec_u16_bytes(h.point_data_record_length));
    assert(s.subrange(13, 17) =~= spec_u32_bytes(h.number_of_point_records));
    assert(s.subrange(17, 21) =~= spec_u32_bytes(h.points_by_return_1));
    assert(s.subrange(21, 25) =~= spec_u32_bytes(h.points_by_return_2));
    assert(s.subrange(25, 29) =~= spec_u32_bytes(h.points_by_return_3));
    assert(s.subrange(29, 33) =~= spec_u32_bytes(h.points_by_return_4));
    assert(s.subrange(33, 37) =~= spec_u32_bytes(h.points_by_return_5));
    lemma_u16_round_trip(h.header_size);
    lemma_u32_round_trip(h.offset_to_point_data);
    lemma_u32_round_trip(h.number_of_vlrs);
    lemma_u16_round_trip(h.point_data_record_length);
    lemma_u32_round_trip(h.number_of_point_records);
    lemma_u32_round_trip(h.points_by_return_1);
    lemma_u32_round_trip(h.points_by_return_2);
    lemma_u32_round_trip(h.points_by_return_3);
    lemma_u32_round_trip(h.points_by_return_4);
    lemma_u32_round_trip(h.points_by_return_5);
}

/// The scale and offset fields of a header's wire bytes read back as
/// written.
#[verifier::rlimit(100)]
proof fn lemma_header_fields_scales(h: Header, s: Seq<u8>)
    requires
        s.len() >= HEADER_SIZE,
        s.subrange(0, HEADER_SIZE as int) == spec_header_bytes(h),
    ensures
        spec_u64_le(s.subrange(37, 45)) == h.x_scale_bits,
        spec_u64_le(s.subrange(45, 53)) == h.y_scale_bits,
        spec_u64_le(s.subrange(53, 61)) == h.z_scale_bits,
        spec_u64_le(s.subrange(61, 69)) == h.x_offset_bits,
        spec_u64_le(s.subrange(69, 77)) == h.y_offset_bits,
        spec_u64_le(s.subrange(77, 85)) == h.z_offset_bits,
{
    let w = spec_header_bytes(h);
    assert(forall|i: int| 0 <= i < HEADER_SIZE ==> s[i] == w[i]) by {
        assert(forall|i: int|
            0 <= i < HEADER_SIZE ==> s[i] == s.subrange(0, HEADER_SIZE as int)[i]);
    }
    assert(s.subrange(37, 45) =~= spec_u64_bytes(h.x_scale_bits));
    assert(s.subrange(45, 53) =~= spec_u64_bytes(h.y_scale_bits));
    assert(s.subrange(53, 61) =~= spec_u64_bytes(h.z_scale_bits));
    assert(s.subrange(61, 69) =~= spec_u64_bytes(h.x_offset_bits));
    assert(s.subrange(69, 77) =~= spec_u64_bytes(h.y_offset_bits));
    assert(s.subrange(77, 85) =~= spec_u64_bytes(h.z_offset_bits));
    lemma_u64_round_trip(h.x_scale_bits);
    lemma_u64_round_trip(h.y_scale_bits);
    lemma_u64_round_trip(h.z_scale_bits);
    lemma_u64_round_trip(h.x_offset_bits);
    lemma_u64_round_trip(h.y_offset_bits);
    lemma_u64_round_trip(h.z_offset_bits);
}

/// The bound fields of a header's wire bytes read back as written.
#[verifier::rlimit(100)]
proof fn lemma_header_fields_bounds(h: Header, s: Seq<u8>)
    requires
        s.len() >= HEADER_SIZE,
        s.subrange(0, HEADER_SIZE as int) == spec_header_bytes(h),
    ensures
        spec_u64_le(s.subrange(85, 93)) == h.x_min_bits,
        spec_u64_le(s.subrange(93, 101)) == h.x_max_bits,
        spec_u64_le(s.subrange(101, 109)) == h.y_min_bits,
        spec_u64_le(s.subrange(109, 117)) == h.y_max_bits,
        spec_u64_le(s.subrange(117, 125)) == h.z_min_bits,
        spec_u64_le(s.subrange(125, 133)) == h.z_max_bits,
{
    let w = spec_header_bytes(h);
    assert(forall|i: int| 0 <= i < HEADER_SIZE ==> s[i] == w[i]) by {
        assert(forall|i: int|
            0 <= i < HEADER_SIZE ==> s[i] == s.subrange(0, HEADER_SIZE as int)[i]);
    }
    assert(s.subrange(85, 93) =~= spec_u64_bytes(h.x_min_bits));
    assert(s.subrange(93, 101) =~= spec_u64_bytes(h.x_max_bits));
    assert(s.subrange(101, 109) =~= spec_u64_bytes(h.y_min_bits));
    assert(s.subrange(109, 117) =~= spec_u64_bytes(h.y_max_bits));
    assert(s.subrange(117, 125) =~= spec_u64_bytes(h.z_min_bits));
    assert(s.subrange(125, 133) =~= spec_u64_bytes(h.z_max_bits));
    lemma_u64_round_trip(h.x_min_bits);
    lemma_u64_round_trip(h.x_max_bits);
    lemma_u64_round_trip(h.y_min_bits);
    lemma_u64_round_trip(h.y_max_bits);
    lemma_u64_round_trip(h.z_min_bits);
    lemma_u64_round_trip(h.z_max_bits);
}

/// A header's wire bytes, wherever a stream begins with them, parse back to
/// the header.
#[verifier::rlimit(100)]
pub proof fn lemma_header_round_trip(h: Header, s: Seq<u8>)
    requires
        s.len() >= HEADER_SIZE,
        s.subrange(0, HEADER_SIZE as int) == spec_header_bytes(h),
    ensures
        spec_parse_header(s) == Ok::<_, Error>(h),
{
    lemma_header_fields_front(h, s);
    lemma_header_fields_scales(h, s);
    lemma_header_fields_bounds(h, s);
    assert(s[10] <= 3);
}

/// Appends the serialized header fields.
#[verifier::rlimit(100)]
pub fn write_header_to(out: &mut Vec<u8>, h: &Header)
    ensures
        final(out)@ == old(out)@ + spec_header_bytes(*h),
{
    push_u16_le(out, h.header_size);
    push_u32_le(out, h.offset_to_point_data);
    push_u32_le(out, h.number_of_vlrs);
    out.push(h.point_data_format.code());
    push_u16_le(out, h.point_data_record_length);
    push_u32_le(out, h.number_of_point_records);
    push_u32_le(out, h.points_by_return_1);
    push_u32_le(out, h.points_by_return_2);
    push_u32_le(out, h.points_by_return_3);
    push_u32_le(out, h.points_by_return_4);
    push_u32_le(out, h.points_by_return_5);
    push_u64_le(out, h.x_scale_bits);
    push_u64_le(out, h.y_scale_bits);
    push_u64_le(out, h.z_scale_bits);
    push_u64_le(out, h.x_offset_bits);
    push_u64_le(out, h.y_offset_bits);
    push_u64_le(out, h.z_offset_bits);
    push_u64_le(out, h.x_min_bits);
    push_u64_le(out, h.x_max_bits);
    push_u64_le(out, h.y_min_bits);
    push_u64_le(out, h.y_max_bits);
    push_u64_le(out, h.z_min_bits);
    push_u64_le(out, h.z_max_bits);
    proof {
        assert(out@ =~= old(out)@ + spec_header_bytes(*h));
    }
}

/// Parses the header fields a stream begins with.
#[verifier::rlimit(100)]
pub fn parse_header(b: &Vec<u8>) -> (res: Result<Header, Error>)
    ensures
        res == spec_parse_header(b@),
{
    let n = b.len();
    if n < HEADER_SIZE as usize {
        return Err(Error::ShortRead);
    }
    let code = b[10];
    let point_data_format = match PointFormat::from_code(code) {
        Some(f) => f,
        None => {
            return Err(Error::UnknownPointFormat(code));
        },
    };
    let h = Header {
        header_size: read_u16_le(b, 0),
        offset_to_point_data: read_u32_le(b, 2),
        number_of_vlrs: read_u32_le(b, 6),
        point_data_format,
        point_data_record_length: read_u16_le(b, 11),
        number_of_point_records: read_u32_le(b, 13),
        points_by_return_1: read_u32_le(b, 17),
        points_by_return_2: read_u32_le(b, 21),
        points_by_return_3: read_u32_le(b, 25),
        points_by_return_4: read_u32_le(b, 29),
        points_by_return_5: read_u32_le(b, 33),
        x_scale_bits: read_u64_le(b, 37),
        y_scale_bits: read_u64_le(b, 45),
        z_scale_bits: read_u64_le(b, 53),
        x_offset_bits: read_u64_le(b, 61),
        y_offset_bits: read_u64_le(b, 69),
        z_offset_bits: read_u64_le(b, 77),
        x_min_bits: read_u64_le(b, 85),
        x_max_bits: read_u64_le(b, 93),
        y_min_bits: read_u64_le(b, 101),
        y_max_bits: read_u64_le(b, 109),
        z_min_bits: read_u64_le(b, 117),
        z_max_bits: read_u64_le(b, 125),
    };
    Ok(h)
}

} // verus!
