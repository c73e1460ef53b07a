//! The point record: one fixed-length serialized sample, and its codec.
//!
//! A record's byte layout, all little-endian: `x,y,z` as scaled signed
//! 32-bit integers, the intensity, the bit-packed return-information and
//! classification bytes, the scan angle rank (signed byte), the user data
//! byte, the point source id, then — as the point format declares them — an
//! eight-byte GPS time, a three-channel color, and any trailing extra bytes.

use vstd::prelude::*;
use crate::bytes::{
    spec_i32_bytes, spec_i32_le, spec_u16_bytes, spec_u16_le, spec_u64_bytes, spec_u64_le,
    push_i32_le, push_u16_le, push_u64_le, read_i32_le, read_u16_le, read_u64_le,
    lemma_i32_round_trip, lemma_u16_round_trip, lemma_u64_round_trip,
};
use crate::error::{Error, MissingField};
use crate::format::PointFormat;
use crate::packing::{
    spec_pack_return_info, spec_pack_classification, spec_return_number, spec_number_of_returns,
    spec_scan_direction, spec_edge_of_flight_line, spec_classification, spec_synthetic,
    spec_key_point, spec_withheld, pack_return_info, pack_classification, unpack_return_info,
    unpack_classification, lemma_return_info_round_trip, lemma_classification_round_trip,
};

verus! {

/// The wire-level fields of one point record. GPS time is carried as the
/// IEEE-754 bit pattern of the double stored on disk; no arithmetic ever
/// touches it, so the pattern is preserved exactly.
#[derive(Clone, Debug)]
pub struct PointRecord {
    /// The x coordinate in the fixed-point stored form.
    pub x_raw: i32,
    /// The y coordinate in the fixed-point stored form.
    pub y_raw: i32,
    /// The z coordinate in the fixed-point stored form.
    pub z_raw: i32,
    /// The pulse return magnitude.
    pub intensity: u16,
    /// Which return of the pulse this is, 0 through 7.
    pub return_number: u8,
    /// How many returns the pulse had, 0 through 7.
    pub number_of_returns: u8,
    /// The mirror travel direction, 0 or 1.
    pub scan_direction: u8,
    /// Whether the point lies at the end of a scan line.
    pub edge_of_flight_line: bool,
    /// The classification, 0 through 31.
    pub classification: u8,
    /// Whether the point was produced by synthesis rather than collection.
    pub synthetic: bool,
    /// Whether the point is a model key point.
    pub key_point: bool,
    /// Whether the point should be withheld from processing.
    pub withheld: bool,
    /// The angle of the output laser pulse, a signed byte.
    pub scan_angle_rank: i8,
    /// A byte at the user's discretion.
    pub user_data: u8,
    /// The source file id of the point.
    pub point_source_id: u16,
    /// The GPS time bit pattern, present exactly for time-bearing formats.
    pub gps_time: Option<u64>,
    /// The red channel, present exactly for color-bearing formats.
    pub red: Option<u16>,
    /// The green channel, present exactly for color-bearing formats.
    pub green: Option<u16>,
    /// The blue channel, present exactly for color-bearing formats.
    pub blue: Option<u16>,
    /// Trailing raw bytes beyond the format's fixed fields, opaque to the
    /// codec; `None` stands for an empty run.
    pub extra_bytes: Option<Vec<u8>>,
}

/// The mathematical model of a point record: the same fields with the extra
/// bytes as a sequence.
#[verifier::ext_equal]
pub struct SpecRecord {
    pub x_raw: i32,
    pub y_raw: i32,
    pub z_raw: i32,
    pub intensity: u16,
    pub return_number: u8,
    pub number_of_returns: u8,
    pub scan_direction: u8,
    pub edge_of_flight_line: bool,
    pub classification: u8,
    pub synthetic: bool,
    pub key_point: bool,
    pub withheld: bool,
    pub scan_angle_rank: i8,
    pub user_data: u8,
    pub point_source_id: u16,
    pub gps_time: Option<u64>,
    pub red: Option<u16>,
    pub green: Option<u16>,
    pub blue: Option<u16>,
    pub extra_bytes: Option<Seq<u8>>,
}

impl View for PointRecord {
    type V = SpecRecord;

    open spec fn view(&self) -> SpecRecord {
        SpecRecord {
            x_raw: self.x_raw,
            y_raw: self.y_raw,
            z_raw: self.z_raw,
            intensity: self.intensity,
            return_number: self.return_number,
            number_of_returns: self.number_of_returns,
            scan_direction: self.scan_direction,
            edge_of_flight_line: self.edge_of_flight_line,
            classification: self.classification,
            synthetic: self.synthetic,
            key_point: self.key_point,
            withheld: self.withheld,
            scan_angle_rank: self.scan_angle_rank,
            user_data: self.user_data,
            point_source_id: self.point_source_id,
            gps_time: self.gps_time,
            red: self.red,
            green: self.green,
            blue: self.blue,
            extra_bytes: match self.extra_bytes {
                Some(e) => Some(e@),
                None => None,
            },
        }
    }
}

impl SpecRecord {
    /// Well-formedness: the bit-packed fields fit their widths, and a present
    /// extra-byte run is nonempty (an empty run is represented as absent).
    pub open spec fn wf(self) -> bool {
        self.return_number < 8 && self.number_of_returns < 8 && self.scan_direction < 2
            && self.classification < 32 && (self.extra_bytes matches Some(e) ==> e.len() > 0)
    }

    /// The extra bytes, with absence read as the empty run.
    pub open spec fn spec_extra(self) -> Seq<u8> {
        match self.extra_bytes {
            Some(e) => e,
            None => Seq::empty(),
        }
    }
}

/// The record every field of which is zero or absent.
pub open spec fn spec_record_default() -> SpecRecord {
    SpecRecord {
        x_raw: 0,
        y_raw: 0,
        z_raw: 0,
        intensity: 0,
        return_number: 0,
        number_of_returns: 0,
        scan_direction: 0,
        edge_of_flight_line: false,
        classification: 0,
        synthetic: false,
        key_point: false,
        withheld: false,
        scan_angle_rank: 0,
        user_data: 0,
        point_source_id: 0,
        gps_time: None,
        red: None,
        green: None,
        blue: None,
        extra_bytes: None,
    }
}

impl PointRecord {
    /// A record with every field zero or absent.
    pub fn new() -> (r: PointRecord)
        ensures
            r@ == spec_record_default(),
            r@.wf(),
    {
        PointRecord {
            x_raw: 0,
            y_raw: 0,
            z_raw: 0,
            intensity: 0,
            return_number: 0,
            number_of_returns: 0,
            scan_direction: 0,
            edge_of_flight_line: false,
            classification: 0,
            synthetic: false,
            key_point: false,
            withheld: false,
            scan_angle_rank: 0,
            user_data: 0,
            point_source_id: 0,
            gps_time: None,
            red: None,
            green: None,
            blue: None,
            extra_bytes: None,
        }
    }
}

/// The data-model invariant relating a record to the active format: the GPS
/// time is present exactly when the format declares time, and each color
/// channel exactly when it declares color. Encoding demands only the forward
/// directions; a field the format does not declare is omitted from the wire,
/// so only records satisfying the full invariant round-trip unchanged.
pub open spec fn spec_matches_format(r: SpecRecord, format: PointFormat) -> bool {
    (r.gps_time is Some <==> format.spec_has_time()) && (r.red is Some
        <==> format.spec_has_color()) && (r.green is Some <==> format.spec_has_color()) && (
    r.blue is Some <==> format.spec_has_color())
}

/// The error encoding a record against a format gives, if any: the first
/// field the format requires that the record lacks, in wire order.
pub open spec fn spec_encode_error(r: SpecRecord, format: PointFormat) -> Option<Error> {
    if format.spec_has_time() && r.gps_time is None {
        Some(Error::PointFormatMismatch(format, MissingField::GpsTime))
    } else if format.spec_has_color() && r.red is None {
        Some(Error::PointFormatMismatch(format, MissingField::Red))
    } else if format.spec_has_color() && r.green is None {
        Some(Error::PointFormatMismatch(format, MissingField::Green))
    } else if format.spec_has_color() && r.blue is None {
        Some(Error::PointFormatMismatch(format, MissingField::Blue))
    } else {
        None
    }
}

/// The twenty bytes every record begins with.
pub open spec fn spec_record_prefix(r: SpecRecord) -> Seq<u8> {
    spec_i32_bytes(r.x_raw) + spec_i32_bytes(r.y_raw) + spec_i32_bytes(r.z_raw)
        + spec_u16_bytes(r.intensity)
        + seq![
        spec_pack_return_info(
            r.return_number,
            r.number_of_returns,
            r.scan_direction,
            r.edge_of_flight_line,
        ),
        spec_pack_classification(r.classification, r.synthetic, r.key_point, r.withheld),
        r.scan_angle_rank as u8,
        r.user_data,
    ] + spec_u16_bytes(r.point_source_id)
}

/// The GPS-time segment of a record's wire bytes: eight bytes for a
/// time-bearing format, nothing otherwise.
pub open spec fn spec_time_part(r: SpecRecord, format: PointFormat) -> Seq<u8> {
    if format.spec_has_time() {
        spec_u64_bytes(r.gps_time->Some_0)
    } else {
        Seq::empty()
    }
}

/// The color segment of a record's wire bytes: the three channels for a
/// color-bearing format, nothing otherwise.
pub open spec fn spec_color_part(r: SpecRecord, format: PointFormat) -> Seq<u8> {
    if format.spec_has_color() {
        spec_u16_bytes(r.red->Some_0) + spec_u16_bytes(r.green->Some_0) + spec_u16_bytes(
            r.blue->Some_0,
        )
    } else {
        Seq::empty()
    }
}

/// The full wire bytes of a record under a format: the prefix, then the GPS
/// time and the color exactly where the format declares them, then the extra
/// bytes.
pub open spec fn spec_record_bytes(r: SpecRecord, format: PointFormat) -> Seq<u8>
    recommends
        spec_encode_error(r, format) is None,
{
    spec_record_prefix(r) + spec_time_part(r, format) + spec_color_part(r, format)
        + r.spec_extra()
}

/// An encodable record's bytes are its format's fixed record length plus its
/// extra bytes.
pub proof fn lemma_record_bytes_len(r: SpecRecord, format: PointFormat)
    requires
        spec_encode_error(r, format) is None,
    ensures
        spec_record_bytes(r, format).len() == format.spec_record_length() + r.spec_extra().len(),
{
}

/// The record a byte run holds under a format. The run must be at least the
/// format's fixed record length; whatever follows the fixed fields is the
/// extra bytes.
pub open spec fn spec_decode(s: Seq<u8>, format: PointFormat) -> SpecRecord
    recommends
        s.len() >= format.spec_record_length(),
{
    let color_at: int = if format.spec_has_time() {
        28
    } else {
        20
    };
    let fixed = format.spec_record_length() as int;
    SpecRecord {
        x_raw: spec_i32_le(s.subrange(0, 4)),
        y_raw: spec_i32_le(s.subrange(4, 8)),
        z_raw: spec_i32_le(s.subrange(8, 12)),
        intensity: spec_u16_le(s.subrange(12, 14)),
        return_number: spec_return_number(s[14]),
        number_of_returns: spec_number_of_returns(s[14]),
        scan_direction: spec_scan_direction(s[14]),
        edge_of_flight_line: spec_edge_of_flight_line(s[14]),
        classification: spec_classification(s[15]),
        synthetic: spec_synthetic(s[15]),
        key_point: spec_key_point(s[15]),
        withheld: spec_withheld(s[15]),
        scan_angle_rank: s[16] as i8,
        user_data: s[17],
        point_source_id: spec_u16_le(s.subrange(18, 20)),
        gps_time: if format.spec_has_time() {
            Some(spec_u64_le(s.subrange(20, 28)))
        } else {
            None
        },
        red: if format.spec_has_color() {
            Some(spec_u16_le(s.subrange(color_at, color_at + 2)))
        } else {
            None
        },
        green: if format.spec_has_color() {
            Some(spec_u16_le(s.subrange(color_at + 2, color_at + 4)))
        } else {
            None
        },
        blue: if format.spec_has_color() {
            Some(spec_u16_le(s.subrange(color_at + 4, color_at + 6)))
        } else {
            None
        },
        extra_bytes: if s.len() > fixed {
            Some(s.subrange(fixed, s.len() as int))
        } else {
            None
        },
    }
}

/// Encoding a well-formed record and decoding its bytes reproduces the
/// record exactly.
#[verifier::rlimit(100)]
pub proof fn lemma_record_round_trip(r: SpecRecord, format: PointFormat)
    requires
        r.wf(),
        spec_matches_format(r, format),
    ensures
        spec_decode(spec_record_bytes(r, format), format) == r,
{
    let s = spec_record_bytes(r, format);
    let p = spec_record_prefix(r);
    let t = spec_time_part(r, format);
    let c = spec_color_part(r, format);
    let fixed = format.spec_record_length() as int;
    lemma_record_bytes_len(r, format);
    assert(p.len() == 20 && s == p + t + c + r.spec_extra());
    assert(forall|i: int| 0 <= i < 20 ==> s[i] == p[i]);
    assert(s.subrange(0, 4) =~= spec_i32_bytes(r.x_raw));
    assert(s.subrange(4, 8) =~= spec_i32_bytes(r.y_raw));
    assert(s.subrange(8, 12) =~= spec_i32_bytes(r.z_raw));
    assert(s.subrange(12, 14) =~= spec_u16_bytes(r.intensity));
    assert(s.subrange(18, 20) =~= spec_u16_bytes(r.point_source_id));
    lemma_i32_round_trip(r.x_raw);
    lemma_i32_round_trip(r.y_raw);
    lemma_i32_round_trip(r.z_raw);
    lemma_u16_round_trip(r.intensity);
    lemma_u16_round_trip(r.point_source_id);
    assert(s[14] == spec_pack_return_info(
        r.return_number,
        r.number_of_returns,
        r.scan_direction,
        r.edge_of_flight_line,
    ));
    assert(s[15] == spec_pack_classification(r.classification, r.synthetic, r.key_point, r.withheld));
    lemma_return_info_round_trip(
        r.return_number,
        r.number_of_returns,
        r.scan_direction,
        r.edge_of_flight_line,
    );
    lemma_classification_round_trip(r.classification, r.synthetic, r.key_point, r.withheld);
    assert(s[16] == r.scan_angle_rank as u8);
    let sar = r.scan_angle_rank;
    assert((sar as u8) as i8 == sar) by (bit_vector);
    assert(s[17] == r.user_data);
    if format.spec_has_time() {
        assert(s.subrange(20, 28) =~= spec_u64_bytes(r.gps_time->Some_0));
        lemma_u64_round_trip(r.gps_time->Some_0);
    }
    if format.spec_has_color() {
        let color_at: int = if format.spec_has_time() {
            28
        } else {
            20
        };
        assert(s.subrange(color_at, color_at + 2) =~= spec_u16_bytes(r.red->Some_0));
        assert(s.subrange(color_at + 2, color_at + 4) =~= spec_u16_bytes(r.green->Some_0));
        assert(s.subrange(color_at + 4, color_at + 6) =~= spec_u16_bytes(r.blue->Some_0));
        lemma_u16_round_trip(r.red->Some_0);
        lemma_u16_round_trip(r.green->Some_0);
        lemma_u16_round_trip(r.blue->Some_0);
    }
    match r.extra_bytes {
        Some(e) => {
            assert(s.subrange(fixed, s.len() as int) =~= e);
        },
        None => {
            assert(s.len() == fixed);
        },
    }
    let d = spec_decode(s, format);
    assert(d.x_raw == r.x_raw && d.y_raw == r.y_raw && d.z_raw == r.z_raw);
    assert(d.intensity == r.intensity && d.point_source_id == r.point_source_id);
    assert(d.return_number == r.return_number && d.number_of_returns == r.number_of_returns
        && d.scan_direction == r.scan_direction && d.edge_of_flight_line == r.edge_of_flight_line);
    assert(d.classification == r.classification && d.synthetic == r.synthetic && d.key_point
        == r.key_point && d.withheld == r.withheld);
    assert(d.scan_angle_rank == r.scan_angle_rank && d.user_data == r.user_data);
    assert(d.gps_time == r.gps_time && d.red == r.red && d.green == r.green && d.blue == r.blue);
    assert(d.extra_bytes =~~= r.extra_bytes);
    assert(d =~~= r);
}

/// Format gating: against a time-bearing format, a record without a GPS
/// time fails to encode, with the mismatch error naming the format and the
/// missing field. Against a format without time the same record encodes
/// (given its color fields) and the GPS time is simply omitted from the
/// wire: the bytes hold exactly the format's fields, and decoding them
/// yields no GPS time.
pub proof fn lemma_format_gating(r: SpecRecord, format: PointFormat)
    requires
        r.wf(),
    ensures
        format.spec_has_time() && r.gps_time is None ==> spec_encode_error(r, format) == Some(
            Error::PointFormatMismatch(format, MissingField::GpsTime),
        ),
        !format.spec_has_time() && spec_encode_error(r, format) is None ==> spec_record_bytes(
            r,
            format,
        ).len() == format.spec_record_length() + r.spec_extra().len() && spec_decode(
            spec_record_bytes(r, format),
            format,
        ).gps_time is None,
{
    if !format.spec_has_time() && spec_encode_error(r, format) is None {
        lemma_record_bytes_len(r, format);
    }
}

/// Appends the wire bytes of a record, or reports the first field the format
/// requires that the record lacks. On an error nothing is appended.
#[verifier::rlimit(100)]
pub fn write_record_to(out: &mut Vec<u8>, record: &PointRecord, format: PointFormat) -> (res:
    Result<(), Error>)
    requires
        record@.wf(),
    ensures
        res is Ok <==> spec_encode_error(record@, format) is None,
        res is Ok ==> final(out)@ == old(out)@ + spec_record_bytes(record@, format),
        res is Err ==> final(out)@ == old(out)@ && Some(res->Err_0) == spec_encode_error(
            record@,
            format,
        ),
{
    let has_time = format.has_time();
    let has_color = format.has_color();
    if has_time && record.gps_time.is_none() {
        return Err(Error::PointFormatMismatch(format, MissingField::GpsTime));
    }
    if has_color && record.red.is_none() {
        return Err(Error::PointFormatMismatch(format, MissingField::Red));
    }
    if has_color && record.green.is_none() {
        return Err(Error::PointFormatMismatch(format, MissingField::Green));
    }
    if has_color && record.blue.is_none() {
        return Err(Error::PointFormatMismatch(format, MissingField::Blue));
    }
    let ghost start = out@;
    push_i32_le(out, record.x_raw);
    push_i32_le(out, record.y_raw);
    push_i32_le(out, record.z_raw);
    push_u16_le(out, record.intensity);
    out.push(
        pack_return_info(
            record.return_number,
            record.number_of_returns,
            record.scan_direction,
            record.edge_of_flight_line,
        ),
    );
    out.push(
        pack_classification(record.classification, record.synthetic, record.key_point, record.withheld),
    );
    out.push(record.scan_angle_rank as u8);
    out.push(record.user_data);
    push_u16_le(out, record.point_source_id);
    proof {
        assert(out@ =~= start + spec_record_prefix(record@));
    }
    let ghost with_prefix = out@;
    if has_time {
        match record.gps_time {
            Some(t) => push_u64_le(out, t),
            None => {
                proof {
                    assert(false);
                }
            },
        }
    }
    proof {
        assert(out@ =~= with_prefix + spec_time_part(record@, format));
    }
    let ghost with_time = out@;
    if has_color {
        match (record.red, record.green, record.blue) {
            (Some(r), Some(g), Some(b)) => {
                push_u16_le(out, r);
                push_u16_le(out, g);
                push_u16_le(out, b);
            },
            _ => {
                proof {
                    assert(false);
                }
            },
        }
    }
    proof {
        assert(out@ =~= with_time + spec_color_part(record@, format));
    }
    let ghost fixed_part = out@;
    match &record.extra_bytes {
        Some(extra) => {
            let mut i: usize = 0;
            while i < extra.len()
                invariant
                    i <= extra@.len(),
                    out@ == fixed_part + extra@.subrange(0, i as int),
                decreases extra@.len() - i,
            {
                out.push(extra[i]);
                proof {
                    assert(extra@.subrange(0, i as int).push(extra@[i as int]) =~= extra@.subrange(
                        0,
                        i + 1,
                    ));
                }
                i += 1;
            }
            proof {
                assert(extra@.subrange(0, extra@.len() as int) =~= extra@);
            }
        },
        None => {},
    }
    proof {
        assert(out@ =~= fixed_part + record@.spec_extra());
        assert(out@ =~= old(out)@ + spec_record_bytes(record@, format));
    }
    Ok(())
}

/// Decodes the record occupying `b[start .. start + record_length]` under a
/// format. Fails with a short read when the declared record length cannot
/// hold the format's fixed fields; the decoded record is always well formed.
pub fn decode_record(b: &Vec<u8>, start: usize, record_length: u16, format: PointFormat) -> (res:
    Result<PointRecord, Error>)
    requires
        start + record_length <= b@.len(),
    ensures
        res is Ok <==> record_length >= format.spec_record_length(),
        res is Ok ==> res->Ok_0@ == spec_decode(
            b@.subrange(start as int, start + record_length),
            format,
        ) && res->Ok_0@.wf(),
        res is Err ==> res->Err_0 == Error::ShortRead,
{
    let fixed = format.record_length();
    if record_length < fixed {
        return Err(Error::ShortRead);
    }
    let n = b.len();
    assert(start + record_length <= n);
    let ghost s = b@.subrange(start as int, start + record_length);
    proof {
        assert(s.subrange(0, 4) =~= b@.subrange(start as int, start + 4));
        assert(s.subrange(4, 8) =~= b@.subrange(start + 4, start + 8));
        assert(s.subrange(8, 12) =~= b@.subrange(start + 8, start + 12));
        assert(s.subrange(12, 14) =~= b@.subrange(start + 12, start + 14));
        assert(s.subrange(18, 20) =~= b@.subrange(start + 18, start + 20));
    }
    let x_raw = read_i32_le(b, start);
    let y_raw = read_i32_le(b, start + 4);
    let z_raw = read_i32_le(b, start + 8);
    let intensity = read_u16_le(b, start + 12);
    let (return_number, number_of_returns, scan_direction, edge_of_flight_line) =
        unpack_return_info(b[start + 14]);
    let (classification, synthetic, key_point, withheld) = unpack_classification(b[start + 15]);
    let scan_angle_rank = b[start + 16] as i8;
    let user_data = b[start + 17];
    let point_source_id = read_u16_le(b, start + 18);
    proof {
        assert(s[14] == b@[start + 14] && s[15] == b@[start + 15] && s[16] == b@[start + 16]
            && s[17] == b@[start + 17]);
    }
    let gps_time = if format.has_time() {
        proof {
            assert(s.subrange(20, 28) =~= b@.subrange(start + 20, start + 28));
        }
        Some(read_u64_le(b, start + 20))
    } else {
        None
    };
    let color_at: usize = if format.has_time() {
        28
    } else {
        20
    };
    let (red, green, blue) = if format.has_color() {
        proof {
            assert(s.subrange(color_at as int, color_at + 2) =~= b@.subrange(
                start + color_at,
                start + color_at + 2,
            ));
            assert(s.subrange(color_at + 2, color_at + 4) =~= b@.subrange(
                start + color_at + 2,
                start + color_at + 4,
            ));
            assert(s.subrange(color_at + 4, color_at + 6) =~= b@.subrange(
                start + color_at + 4,
                start + color_at + 6,
            ));
        }
        (
            Some(read_u16_le(b, start + color_at)),
            Some(read_u16_le(b, start + color_at + 2)),
            Some(read_u16_le(b, start + color_at + 4)),
        )
    } else {
        (None, None, None)
    };
    let end = start + record_length as usize;
    let mut i = start + fixed as usize;
    let mut extra: Vec<u8> = Vec::new();
    while i < end
        invariant
            start + fixed <= i <= end,
            end == start + record_length,
            end <= b@.len(),
            extra@ == b@.subrange(start + fixed, i as int),
        decreases end - i,
    {
        extra.push(b[i]);
        proof {
            assert(b@.subrange(start + fixed as int, i as int).push(b@[i as int]) =~= b@.subrange(
                start + fixed as int,
                i + 1,
            ));
        }
        i += 1;
    }
    let extra_bytes = if extra.len() > 0 {
        Some(extra)
    } else {
        None
    };
    let rec = PointRecord {
        x_raw,
        y_raw,
        z_raw,
        intensity,
        return_number,
        number_of_returns,
        scan_direction,
        edge_of_flight_line,
        classification,
        synthetic,
        key_point,
        withheld,
        scan_angle_rank,
        user_data,
        point_source_id,
        gps_time,
        red,
        green,
        blue,
        extra_bytes,
    };
    proof {
        assert(s.subrange(fixed as int, s.len() as int) =~= b@.subrange(start + fixed, end as int));
        assert((b@[start + 16] as i8) == (s[16] as i8));
    }
    Ok(rec)
}

} // verus!
