//! The file aggregate: one header, the metadata records in wire order, and
//! the points in storage order. Reading deserializes a whole byte stream;
//! writing first recomputes every derived header field from the owned data,
//! then serializes header, metadata records and points in sequence.

use vstd::prelude::*;
use crate::error::Error;
use crate::format::PointFormat;
use crate::header::{
    spec_header_bytes, spec_parse_header, lemma_header_round_trip, parse_header, write_header_to,
    Header, F64_NEG_INF_BITS, F64_POS_INF_BITS, HEADER_SIZE,
};
use crate::point::{spec_f64_below, f64_below, Point, SpecPoint};
use crate::record::{
    spec_decode, spec_encode_error, spec_matches_format, spec_record_bytes, lemma_record_bytes_len,
    lemma_record_round_trip, decode_record, write_record_to, PointRecord, SpecRecord,
};
use crate::vlr::{
    spec_parse_vlr, spec_vlr_bytes, spec_vlr_wf, lemma_vlr_round_trip, parse_vlr, write_vlr_to,
    Vlr,
};

verus! {

/// A whole file held in memory.
#[derive(Debug)]
pub struct File {
    header: Header,
    vlrs: Vec<Vlr>,
    points: Vec<Point>,
}

/// The mathematical model of a file.
#[verifier::ext_equal]
pub struct SpecFile {
    pub header: Header,
    pub vlrs: Seq<Seq<u8>>,
    pub points: Seq<SpecPoint>,
}

impl View for File {
    type V = SpecFile;

    closed spec fn view(&self) -> SpecFile {
        SpecFile {
            header: self.header,
            vlrs: self.vlrs@.map_values(|v: Vlr| v@),
            points: self.points@.map_values(|p: Point| p@),
        }
    }
}

/// What a successful whole-stream read yields: the header and metadata
/// records verbatim, and the decoded wire records in storage order.
/// Completing the records into points — applying the scale transform to
/// recover real-world coordinates — is IEEE arithmetic and falls to the
/// embedding application.
#[derive(Debug)]
pub struct ParsedFile {
    /// The header, verbatim from the stream.
    pub header: Header,
    /// The metadata records, verbatim and in wire order.
    pub vlrs: Vec<Vlr>,
    /// The decoded point records in storage order.
    pub records: Vec<PointRecord>,
}

/// The mathematical model of a parsed stream.
#[verifier::ext_equal]
pub struct SpecParsed {
    pub header: Header,
    pub vlrs: Seq<Seq<u8>>,
    pub records: Seq<SpecRecord>,
}

impl View for ParsedFile {
    type V = SpecParsed;

    open spec fn view(&self) -> SpecParsed {
        SpecParsed {
            header: self.header,
            vlrs: self.vlrs@.map_values(|v: Vlr| v@),
            records: self.records@.map_values(|r: PointRecord| r@),
        }
    }
}

/// The wire bytes of a run of metadata records, in order.
pub open spec fn spec_vlrs_bytes(vlrs: Seq<Seq<u8>>) -> Seq<u8>
    decreases vlrs.len(),
{
    if vlrs.len() == 0 {
        Seq::empty()
    } else {
        spec_vlr_bytes(vlrs.first()) + spec_vlrs_bytes(vlrs.drop_first())
    }
}

/// The wire bytes of a run of point records, in order.
pub open spec fn spec_records_bytes(records: Seq<SpecRecord>, format: PointFormat) -> Seq<u8>
    decreases records.len(),
{
    if records.len() == 0 {
        Seq::empty()
    } else {
        spec_record_bytes(records.first(), format) + spec_records_bytes(
            records.drop_first(),
            format,
        )
    }
}

/// The first encode error a run of points gives against a format, if any,
/// in storage order.
pub open spec fn spec_first_encode_error(points: Seq<SpecPoint>, format: PointFormat) -> Option<
    Error,
>
    decreases points.len(),
{
    if points.len() == 0 {
        None
    } else {
        match spec_encode_error(points.first().record, format) {
            Some(e) => Some(e),
            None => spec_first_encode_error(points.drop_first(), format),
        }
    }
}

/// A point's coordinate bit pattern on one axis: 0 for x, 1 for y, any
/// other value for z.
pub open spec fn spec_axis_bits(p: SpecPoint, axis: int) -> u64 {
    if axis == 0 {
        p.x_bits
    } else if axis == 1 {
        p.y_bits
    } else {
        p.z_bits
    }
}

/// The lesser of two coordinate bit patterns in the coordinate order.
pub open spec fn spec_min_bits(cur: u64, v: u64) -> u64 {
    if spec_f64_below(v, cur) {
        v
    } else {
        cur
    }
}

/// The greater of two coordinate bit patterns in the coordinate order.
pub open spec fn spec_max_bits(cur: u64, v: u64) -> u64 {
    if spec_f64_below(cur, v) {
        v
    } else {
        cur
    }
}

/// The least coordinate bit pattern of a run of points on one axis,
/// starting from `acc`; with the positive-infinity pattern as the start, a
/// run with no points yields positive infinity.
pub open spec fn spec_coord_min(points: Seq<SpecPoint>, axis: int, acc: u64) -> u64
    decreases points.len(),
{
    if points.len() == 0 {
        acc
    } else {
        spec_coord_min(points.drop_first(), axis, spec_min_bits(acc, spec_axis_bits(points.first(), axis)))
    }
}

/// The greatest coordinate bit pattern of a run of points on one axis,
/// starting from `acc`; with the negative-infinity pattern as the start, a
/// run with no points yields negative infinity.
pub open spec fn spec_coord_max(points: Seq<SpecPoint>, axis: int, acc: u64) -> u64
    decreases points.len(),
{
    if points.len() == 0 {
        acc
    } else {
        spec_coord_max(points.drop_first(), axis, spec_max_bits(acc, spec_axis_bits(points.first(), axis)))
    }
}

/// How many points of a run carry a given return number.
pub open spec fn spec_count_return(points: Seq<SpecPoint>, rn: u8) -> int
    decreases points.len(),
{
    if points.len() == 0 {
        0
    } else {
        (if points.first().record.return_number == rn {
            1int
        } else {
            0
        }) + spec_count_return(points.drop_first(), rn)
    }
}

/// A return tally never exceeds the number of points.
pub proof fn lemma_count_return_bounds(points: Seq<SpecPoint>, rn: u8)
    ensures
        0 <= spec_count_return(points, rn) <= points.len(),
    decreases points.len(),
{
    if points.len() > 0 {
        lemma_count_return_bounds(points.drop_first(), rn);
    }
}

impl SpecFile {
    /// The machine limits a file must respect to be serializable: every
    /// metadata record and the point count must fit their four-byte header
    /// fields, as must the derived offset to the point data; and every
    /// point's record must be well formed.
    pub open spec fn wf(self) -> bool {
        &&& forall|i: int| 0 <= i < self.vlrs.len() ==> spec_vlr_wf(#[trigger] self.vlrs[i])
        &&& self.vlrs.len() <= u32::MAX
        &&& HEADER_SIZE + spec_vlrs_bytes(self.vlrs).len() <= u32::MAX
        &&& self.points.len() <= u32::MAX
        &&& forall|i: int| 0 <= i < self.points.len() ==> (#[trigger] self.points[i]).record.wf()
    }
}

/// The header the write path derives before serializing: the recomputed
/// size, offset, counts and bounds, with the format, scales and offsets
/// kept from the given header.
pub open spec fn spec_derived_header(h: Header, vlrs: Seq<Seq<u8>>, points: Seq<SpecPoint>) -> Header {
    Header {
        header_size: HEADER_SIZE,
        offset_to_point_data: (HEADER_SIZE + spec_vlrs_bytes(vlrs).len()) as u32,
        number_of_vlrs: vlrs.len() as u32,
        point_data_format: h.point_data_format,
        point_data_record_length: h.point_data_format.spec_record_length(),
        number_of_point_records: points.len() as u32,
        points_by_return_1: spec_count_return(points, 1) as u32,
        points_by_return_2: spec_count_return(points, 2) as u32,
        points_by_return_3: spec_count_return(points, 3) as u32,
        points_by_return_4: spec_count_return(points, 4) as u32,
        points_by_return_5: spec_count_return(points, 5) as u32,
        x_scale_bits: h.x_scale_bits,
        y_scale_bits: h.y_scale_bits,
        z_scale_bits: h.z_scale_bits,
        x_offset_bits: h.x_offset_bits,
        y_offset_bits: h.y_offset_bits,
        z_offset_bits: h.z_offset_bits,
        x_min_bits: spec_coord_min(points, 0, F64_POS_INF_BITS),
        x_max_bits: spec_coord_max(points, 0, F64_NEG_INF_BITS),
        y_min_bits: spec_coord_min(points, 1, F64_POS_INF_BITS),
        y_max_bits: spec_coord_max(points, 1, F64_NEG_INF_BITS),
        z_min_bits: spec_coord_min(points, 2, F64_POS_INF_BITS),
        z_max_bits: spec_coord_max(points, 2, F64_NEG_INF_BITS),
    }
}

/// The full wire bytes of a file: the header fields, the metadata records,
/// the point records. A derived header declares exactly these positions,
/// so no padding separates the sections.
pub open spec fn spec_file_bytes(h: Header, vlrs: Seq<Seq<u8>>, records: Seq<SpecRecord>) -> Seq<
    u8,
> {
    spec_header_bytes(h) + spec_vlrs_bytes(vlrs) + spec_records_bytes(records, h.point_data_format)
}

impl File {
    /// A new, empty file with a default header.
    pub fn new() -> (r: File)
        ensures
            r@.header == Header::spec_default(),
            r@.vlrs == Seq::<Seq<u8>>::empty(),
            r@.points == Seq::<SpecPoint>::empty(),
            r@.wf(),
    {
        let r = File { header: Header::new(), vlrs: Vec::new(), points: Vec::new() };
        proof {
            assert(r@.vlrs =~= Seq::<Seq<u8>>::empty());
            assert(r@.points =~= Seq::<SpecPoint>::empty());
        }
        r
    }

    /// Builds a file from its parts: a header, metadata records in wire
    /// order, and points in storage order.
    pub fn from_parts(header: Header, vlrs: Vec<Vlr>, points: Vec<Point>) -> (r: File)
        ensures
            r@.header == header,
            r@.vlrs == vlrs@.map_values(|v: Vlr| v@),
            r@.points == points@.map_values(|p: Point| p@),
    {
        File { header, vlrs, points }
    }

    /// Replaces this file's header.
    pub fn set_header(&mut self, header: Header)
        ensures
            final(self)@.header == header,
            final(self)@.vlrs == old(self)@.vlrs,
            final(self)@.points == old(self)@.points,
    {
        self.header = header;
    }

    /// This file's header.
    pub fn header(&self) -> (r: &Header)
        ensures
            *r == self@.header,
    {
        &self.header
    }

    /// This file's points, in storage order.
    pub fn points(&self) -> (r: &Vec<Point>)
        ensures
            r@.map_values(|p: Point| p@) == self@.points,
    {
        &self.points
    }

    /// This file's metadata records, in wire order.
    pub fn vlrs(&self) -> (r: &Vec<Vlr>)
        ensures
            r@.map_values(|v: Vlr| v@) == self@.vlrs,
    {
        &self.vlrs
    }

    /// Appends a point.
    pub fn add_point(&mut self, point: Point)
        ensures
            final(self)@.points == old(self)@.points.push(point@),
            final(self)@.vlrs == old(self)@.vlrs,
            final(self)@.header == old(self)@.header,
    {
        self.points.push(point);
        proof {
            assert(self@.points =~= old(self)@.points.push(point@));
        }
    }

    /// Serializes the file. First every derived header field is recomputed
    /// in place — size, offset to the point data, record length, point
    /// count, the per-return tallies over returns one through five, and the
    /// bounding box in the coordinate order, which a file with no points
    /// leaves at positive and negative infinity. Then the header, the
    /// metadata records and the point records are laid out in sequence.
    /// The first point that lacks a field its format requires aborts the
    /// write with that point's error; the header keeps its recomputed
    /// fields even then.
    #[verifier::loop_isolation(false)]
    pub fn write_to(&mut self) -> (res: Result<Vec<u8>, Error>)
        requires
            old(self)@.wf(),
        ensures
            final(self)@.header == spec_derived_header(
                old(self)@.header,
                old(self)@.vlrs,
                old(self)@.points,
            ),
            final(self)@.vlrs == old(self)@.vlrs,
            final(self)@.points == old(self)@.points,
            res is Ok <==> spec_first_encode_error(
                old(self)@.points,
                old(self)@.header.point_data_format,
            ) is None,
            res is Ok ==> res->Ok_0@ == spec_file_bytes(
                final(self)@.header,
                old(self)@.vlrs,
                old(self)@.points.map_values(|p: SpecPoint| p.record),
            ),
            res is Err ==> Some(res->Err_0) == spec_first_encode_error(
                old(self)@.points,
                old(self)@.header.point_data_format,
            ),
    {
        let ghost vlrs_v = self@.vlrs;
        let ghost points_v = self@.points;
        let format = self.header.point_data_format;

        let mut offset: u32 = HEADER_SIZE as u32;
        proof {
            assert(vlrs_v.skip(0) =~= vlrs_v);
            assert(points_v.skip(0) =~= points_v);
        }
        let mut i: usize = 0;
        while i < self.vlrs.len()
            invariant
                self == old(self),
                self@.wf(),
                vlrs_v == self@.vlrs,
                i <= self.vlrs@.len(),
                vlrs_v.len() == self.vlrs@.len(),
                offset + spec_vlrs_bytes(vlrs_v.skip(i as int)).len() == HEADER_SIZE
                    + spec_vlrs_bytes(vlrs_v).len(),
            decreases self.vlrs@.len() - i,
        {
            proof {
                assert(vlrs_v.skip(i as int).drop_first() =~= vlrs_v.skip(i + 1));
                assert(vlrs_v.skip(i as int).first() == vlrs_v[i as int]);
                assert(spec_vlr_wf(vlrs_v[i as int]));
            }
            let len = self.vlrs[i].len();
            offset = offset + len;
            i += 1;
        }
        proof {
            assert(vlrs_v.skip(vlrs_v.len() as int) =~= Seq::<Seq<u8>>::empty());
        }

        let mut c1: u32 = 0;
        let mut c2: u32 = 0;
        let mut c3: u32 = 0;
        let mut c4: u32 = 0;
        let mut c5: u32 = 0;
        let mut x_min: u64 = F64_POS_INF_BITS;
        let mut x_max: u64 = F64_NEG_INF_BITS;
        let mut y_min: u64 = F64_POS_INF_BITS;
        let mut y_max: u64 = F64_NEG_INF_BITS;
        let mut z_min: u64 = F64_POS_INF_BITS;
        let mut z_max: u64 = F64_NEG_INF_BITS;
        let mut j: usize = 0;
        while j < self.points.len()
            invariant
                self == old(self),
                self@.wf(),
                points_v == self@.points,
                j <= self.points@.len(),
                points_v.len() == self.points@.len(),
                c1 <= j && c2 <= j && c3 <= j && c4 <= j && c5 <= j,
                c1 + spec_count_return(points_v.skip(j as int), 1) == spec_count_return(points_v, 1),
                c2 + spec_count_return(points_v.skip(j as int), 2) == spec_count_return(points_v, 2),
                c3 + spec_count_return(points_v.skip(j as int), 3) == spec_count_return(points_v, 3),
                c4 + spec_count_return(points_v.skip(j as int), 4) == spec_count_return(points_v, 4),
                c5 + spec_count_return(points_v.skip(j as int), 5) == spec_count_return(points_v, 5),
                spec_coord_min(points_v.skip(j as int), 0, x_min) == spec_coord_min(
                    points_v,
                    0,
                    F64_POS_INF_BITS,
                ),
                spec_coord_max(points_v.skip(j as int), 0, x_max) == spec_coord_max(
                    points_v,
                    0,
                    F64_NEG_INF_BITS,
                ),
                spec_coord_min(points_v.skip(j as int), 1, y_min) == spec_coord_min(
                    points_v,
                    1,
                    F64_POS_INF_BITS,
                ),
                spec_coord_max(points_v.skip(j as int), 1, y_max) == spec_coord_max(
                    points_v,
                    1,
                    F64_NEG_INF_BITS,
                ),
                spec_coord_min(points_v.skip(j as int), 2, z_min) == spec_coord_min(
                    points_v,
                    2,
                    F64_POS_INF_BITS,
                ),
                spec_coord_max(points_v.skip(j as int), 2, z_max) == spec_coord_max(
                    points_v,
                    2,
                    F64_NEG_INF_BITS,
                ),
            decreases self.points@.len() - j,
        {
            proof {
                assert(points_v.skip(j as int).drop_first() =~= points_v.skip(j + 1));
                assert(points_v.skip(j as int).first() == points_v[j as int]);
                lemma_count_return_bounds(points_v.skip(j + 1), 1);
                lemma_count_return_bounds(points_v.skip(j + 1), 2);
                lemma_count_return_bounds(points_v.skip(j + 1), 3);
                lemma_count_return_bounds(points_v.skip(j + 1), 4);
                lemma_count_return_bounds(points_v.skip(j + 1), 5);
            }
            let p = &self.points[j];
            let rn = p.record.return_number;
            if rn == 1 {
                c1 = c1 + 1;
            } else if rn == 2 {
                c2 = c2 + 1;
            } else if rn == 3 {
                c3 = c3 + 1;
            } else if rn == 4 {
                c4 = c4 + 1;
            } else if rn == 5 {
                c5 = c5 + 1;
            }
            if f64_below(p.x_bits, x_min) {
                x_min = p.x_bits;
            }
            if f64_below(x_max, p.x_bits) {
                x_max = p.x_bits;
            }
            if f64_below(p.y_bits, y_min) {
                y_min = p.y_bits;
            }
            if f64_below(y_max, p.y_bits) {
                y_max = p.y_bits;
            }
            if f64_below(p.z_bits, z_min) {
                z_min = p.z_bits;
            }
            if f64_below(z_max, p.z_bits) {
                z_max = p.z_bits;
            }
            j += 1;
        }
        proof {
            assert(points_v.skip(points_v.len() as int) =~= Seq::<SpecPoint>::empty());
        }

        let derived = Header {
            header_size: HEADER_SIZE,
            offset_to_point_data: offset,
            number_of_vlrs: self.vlrs.len() as u32,
            point_data_format: format,
            point_data_record_length: format.record_length(),
            number_of_point_records: self.points.len() as u32,
            points_by_return_1: c1,
            points_by_return_2: c2,
            points_by_return_3: c3,
            points_by_return_4: c4,
            points_by_return_5: c5,
            x_scale_bits: self.header.x_scale_bits,
            y_scale_bits: self.header.y_scale_bits,
            z_scale_bits: self.header.z_scale_bits,
            x_offset_bits: self.header.x_offset_bits,
            y_offset_bits: self.header.y_offset_bits,
            z_offset_bits: self.header.z_offset_bits,
            x_min_bits: x_min,
            x_max_bits: x_max,
            y_min_bits: y_min,
            y_max_bits: y_max,
            z_min_bits: z_min,
            z_max_bits: z_max,
        };
        self.header = derived;
        proof {
            assert(derived == spec_derived_header(old(self)@.header, vlrs_v, points_v));
        }

        let ghost records_v = points_v.map_values(|p: SpecPoint| p.record);
        let ghost target = spec_file_bytes(derived, vlrs_v, records_v);
        let mut out: Vec<u8> = Vec::new();
        write_header_to(&mut out, &self.header);
        proof {
            assert(vlrs_v.skip(0) =~= vlrs_v);
        }
        let mut i2: usize = 0;
        while i2 < self.vlrs.len()
            invariant
                self.header == derived,
                vlrs_v == self@.vlrs,
                points_v == self@.points,
                self@.wf(),
                i2 <= self.vlrs@.len(),
                vlrs_v.len() == self.vlrs@.len(),
                out@ + spec_vlrs_bytes(vlrs_v.skip(i2 as int)) == spec_header_bytes(derived)
                    + spec_vlrs_bytes(vlrs_v),
            decreases self.vlrs@.len() - i2,
        {
            proof {
                assert(vlrs_v.skip(i2 as int).drop_first() =~= vlrs_v.skip(i2 + 1));
                assert(vlrs_v.skip(i2 as int).first() == vlrs_v[i2 as int]);
                assert(spec_vlr_wf(vlrs_v[i2 as int]));
            }
            let ghost out_prev = out@;
            write_vlr_to(&mut out, &self.vlrs[i2]);
            proof {
                assert(out@ + spec_vlrs_bytes(vlrs_v.skip(i2 + 1)) =~= out_prev + spec_vlrs_bytes(
                    vlrs_v.skip(i2 as int),
                ));
            }
            i2 += 1;
        }
        proof {
            assert(vlrs_v.skip(vlrs_v.len() as int) =~= Seq::<Seq<u8>>::empty());
            assert(out@ =~= spec_header_bytes(derived) + spec_vlrs_bytes(vlrs_v));
        }
        let ghost after_vlrs = out@;

        proof {
            assert(points_v.skip(0) =~= points_v);
            assert(records_v.skip(0) =~= records_v);
        }
        let mut k: usize = 0;
        while k < self.points.len()
            invariant
                self.header == derived,
                vlrs_v == self@.vlrs,
                points_v == self@.points,
                self@.wf(),
                k <= self.points@.len(),
                points_v.len() == self.points@.len(),
                records_v == points_v.map_values(|p: SpecPoint| p.record),
                out@ + spec_records_bytes(records_v.skip(k as int), format) == after_vlrs
                    + spec_records_bytes(records_v, format),
                spec_first_encode_error(points_v.skip(k as int), format)
                    == spec_first_encode_error(points_v, format),
            decreases self.points@.len() - k,
        {
            proof {
                assert(points_v.skip(k as int).drop_first() =~= points_v.skip(k + 1));
                assert(points_v.skip(k as int).first() == points_v[k as int]);
                assert(records_v.skip(k as int).drop_first() =~= records_v.skip(k + 1));
                assert(records_v.skip(k as int).first() == records_v[k as int]);
                assert(records_v[k as int] == points_v[k as int].record);
                assert(points_v[k as int].record.wf());
            }
            let ghost out_prev = out@;
            match write_record_to(&mut out, &self.points[k].record, format) {
                Ok(()) => {},
                Err(e) => {
                    proof {
                        assert(spec_first_encode_error(points_v.skip(k as int), format) == Some(e));
                    }
                    return Err(e);
                },
            }
            proof {
                assert(out@ + spec_records_bytes(records_v.skip(k + 1), format) =~= out_prev
                    + spec_records_bytes(records_v.skip(k as int), format));
            }
            k += 1;
        }
        proof {
            assert(points_v.skip(points_v.len() as int) =~= Seq::<SpecPoint>::empty());
            assert(records_v.skip(records_v.len() as int) =~= Seq::<SpecRecord>::empty());
            assert(out@ =~= spec_file_bytes(derived, vlrs_v, records_v));
        }
        Ok(out)
    }

    /// Deserializes a whole byte stream: the header, then as many metadata
    /// records as it declares, then point records until the stream ends.
    /// The declared offsets may exceed the sections' own lengths; the bytes
    /// between are padding and are skipped. The first failure — a short
    /// read, a malformed structure, an unrecognized point-format code —
    /// aborts the whole read.
    #[verifier::loop_isolation(false)]
    pub fn read_from(b: &Vec<u8>) -> (res: Result<ParsedFile, Error>)
        ensures
            res matches Ok(pf) ==> spec_read(b@) == Ok::<SpecParsed, Error>(pf@),
            res matches Err(e) ==> spec_read(b@) == Err::<SpecParsed, Error>(e),
    {
        let header = match parse_header(b) {
            Ok(h) => h,
            Err(e) => {
                return Err(e);
            },
        };
        if header.header_size < HEADER_SIZE {
            return Err(Error::ShortRead);
        }
        if b.len() < header.header_size as usize {
            return Err(Error::ShortRead);
        }
        let ghost nv = header.number_of_vlrs as int;
        let mut vlrs: Vec<Vlr> = Vec::new();
        let mut pos: usize = header.header_size as usize;
        let mut k: u32 = 0;
        proof {
            assert(vlrs@.map_values(|v: Vlr| v@) =~= Seq::<Seq<u8>>::empty());
        }
        while k < header.number_of_vlrs
            invariant
                k <= header.number_of_vlrs,
                pos <= b@.len(),
                vlrs@.len() == k,
                match spec_parse_vlrs(b@, pos as int, nv - k) {
                    Ok((rest, end)) => spec_parse_vlrs(b@, header.header_size as int, nv)
                        == Ok::<_, Error>((vlrs@.map_values(|v: Vlr| v@) + rest, end)),
                    Err(e) => spec_parse_vlrs(b@, header.header_size as int, nv) == Err::<
                        (Seq<Seq<u8>>, int),
                        _,
                    >(e),
                },
            decreases header.number_of_vlrs - k,
        {
            let ghost acc = vlrs@.map_values(|v: Vlr| v@);
            match parse_vlr(b, pos) {
                Ok((v, end)) => {
                    proof {
                        assert((vlrs@.push(v)).map_values(|vv: Vlr| vv@) =~= acc.push(v@));
                    }
                    vlrs.push(v);
                    pos = end;
                    k = k + 1;
                    proof {
                        match spec_parse_vlrs(b@, pos as int, nv - k) {
                            Ok((rest, end2)) => {
                                assert(acc.push(v@) + rest =~= acc + (seq![v@] + rest));
                            },
                            Err(_) => {},
                        }
                    }
                },
                Err(e) => {
                    return Err(e);
                },
            }
        }
        proof {
            assert(spec_parse_vlrs(b@, pos as int, 0) == Ok::<_, Error>((
                Seq::<Seq<u8>>::empty(),
                pos as int,
            )));
            assert(vlrs@.map_values(|v: Vlr| v@) + Seq::<Seq<u8>>::empty() =~= vlrs@.map_values(
                |v: Vlr| v@,
            ));
        }
        if pos > header.offset_to_point_data as usize || b.len()
            < header.offset_to_point_data as usize {
            return Err(Error::ShortRead);
        }
        let fixed = header.point_data_format.record_length();
        if header.point_data_record_length < fixed {
            return Err(Error::ShortRead);
        }
        let rl = header.point_data_record_length as usize;
        let ghost off = header.offset_to_point_data as int;
        let mut records: Vec<PointRecord> = Vec::with_capacity(
            header.number_of_point_records as usize,
        );
        let mut pos2: usize = header.offset_to_point_data as usize;
        proof {
            assert(records@.map_values(|r: PointRecord| r@) =~= Seq::<SpecRecord>::empty());
        }
        while b.len() - pos2 >= rl
            invariant
                pos2 <= b@.len(),
                match spec_parse_records(
                    b@,
                    pos2 as int,
                    rl as int,
                    header.point_data_format,
                ) {
                    Ok(rest) => spec_parse_records(b@, off, rl as int, header.point_data_format)
                        == Ok::<_, Error>(records@.map_values(|r: PointRecord| r@) + rest),
                    Err(e) => spec_parse_records(b@, off, rl as int, header.point_data_format)
                        == Err::<Seq<SpecRecord>, _>(e),
                },
            decreases b@.len() - pos2,
        {
            let ghost acc = records@.map_values(|r: PointRecord| r@);
            let rec = match decode_record(b, pos2, header.point_data_record_length, header.point_data_format) {
                Ok(rec) => rec,
                Err(_) => {
                    proof {
                        assert(false);
                    }
                    return Err(Error::ShortRead);
                },
            };
            proof {
                assert((records@.push(rec)).map_values(|r: PointRecord| r@) =~= acc.push(rec@));
            }
            records.push(rec);
            pos2 = pos2 + rl;
            proof {
                match spec_parse_records(b@, pos2 as int, rl as int, header.point_data_format) {
                    Ok(rest) => {
                        assert(acc.push(rec@) + rest =~= acc + (seq![rec@] + rest));
                    },
                    Err(_) => {},
                }
            }
        }
        if pos2 != b.len() {
            return Err(Error::ShortRead);
        }
        proof {
            assert(records@.map_values(|r: PointRecord| r@) + Seq::<SpecRecord>::empty()
                =~= records@.map_values(|r: PointRecord| r@));
        }
        Ok(ParsedFile { header, vlrs, records })
    }
}

/// Where parsing `n` metadata records starting at `pos` leads: the records
/// and the position just past them, or the first failure.
pub open spec fn spec_parse_vlrs(s: Seq<u8>, pos: int, n: int) -> Result<(Seq<Seq<u8>>, int), Error>
    decreases n,
{
    if n <= 0 {
        Ok((Seq::empty(), pos))
    } else {
        match spec_parse_vlr(s, pos) {
            Err(e) => Err(e),
            Ok((v, end)) => match spec_parse_vlrs(s, end, n - 1) {
                Err(e) => Err(e),
                Ok((rest, end2)) => Ok((seq![v] + rest, end2)),
            },
        }
    }
}

/// The point records a stream holds from `pos` to its end, at a fixed
/// stride: records are decoded until fewer than one stride remains, and a
/// nonempty remainder is a short read.
pub open spec fn spec_parse_records(s: Seq<u8>, pos: int, rl: int, format: PointFormat) -> Result<
    Seq<SpecRecord>,
    Error,
>
    recommends
        rl >= format.spec_record_length(),
    decreases s.len() - pos,
{
    if rl <= 0 || pos < 0 {
        Err(Error::ShortRead)
    } else if s.len() - pos < rl {
        if pos == s.len() {
            Ok(Seq::empty())
        } else {
            Err(Error::ShortRead)
        }
    } else {
        match spec_parse_records(s, pos + rl, rl, format) {
            Err(e) => Err(e),
            Ok(rest) => Ok(seq![spec_decode(s.subrange(pos, pos + rl), format)] + rest),
        }
    }
}

/// Well-formed metadata records laid end to end in a stream parse back to
/// themselves.
proof fn lemma_parse_vlrs_round_trip(s: Seq<u8>, pos: int, vlrs: Seq<Seq<u8>>)
    requires
        forall|i: int| 0 <= i < vlrs.len() ==> spec_vlr_wf(#[trigger] vlrs[i]),
        0 <= pos,
        pos + spec_vlrs_bytes(vlrs).len() <= s.len(),
        s.subrange(pos, pos + spec_vlrs_bytes(vlrs).len()) == spec_vlrs_bytes(vlrs),
    ensures
        spec_parse_vlrs(s, pos, vlrs.len() as int) == Ok::<_, Error>((
            vlrs,
            pos + spec_vlrs_bytes(vlrs).len(),
        )),
    decreases vlrs.len(),
{
    let w = spec_vlrs_bytes(vlrs);
    if vlrs.len() == 0 {
        assert(vlrs =~= Seq::<Seq<u8>>::empty());
    } else {
        let v = vlrs.first();
        let vb = spec_vlr_bytes(v);
        let rest = vlrs.drop_first();
        let rb = spec_vlrs_bytes(rest);
        let region = s.subrange(pos, pos + w.len());
        assert(w == vb + rb);
        assert(s.subrange(pos, pos + vb.len()) =~= region.subrange(0, vb.len() as int));
        assert(region.subrange(0, vb.len() as int) =~= vb);
        lemma_vlr_round_trip(s, pos, v);
        assert(s.subrange(pos + vb.len(), pos + vb.len() + rb.len()) =~= region.subrange(
            vb.len() as int,
            vb.len() + rb.len() as int,
        ));
        assert(region.subrange(vb.len() as int, vb.len() + rb.len() as int) =~= rb);
        lemma_parse_vlrs_round_trip(s, pos + vb.len() as int, rest);
        assert(seq![v] + rest =~= vlrs);
    }
}

/// Well-formed, format-matching records without extra bytes, laid end to
/// end from `pos` to the stream's end, parse back to themselves at the
/// format's fixed stride.
#[verifier::rlimit(100)]
proof fn lemma_parse_records_round_trip(
    s: Seq<u8>,
    pos: int,
    records: Seq<SpecRecord>,
    format: PointFormat,
)
    requires
        forall|i: int|
            0 <= i < records.len() ==> (#[trigger] records[i]).wf() && spec_matches_format(
                records[i],
                format,
            ) && records[i].extra_bytes is None,
        0 <= pos,
        pos + spec_records_bytes(records, format).len() == s.len(),
        s.subrange(pos, s.len() as int) == spec_records_bytes(records, format),
    ensures
        spec_parse_records(s, pos, format.spec_record_length() as int, format) == Ok::<_, Error>(
            records,
        ),
    decreases records.len(),
{
    let rl = format.spec_record_length() as int;
    let w = spec_records_bytes(records, format);
    if records.len() == 0 {
        assert(records =~= Seq::<SpecRecord>::empty());
    } else {
        let r = records.first();
        lemma_record_bytes_len(r, format);
        let rb = spec_record_bytes(r, format);
        let rest = records.drop_first();
        let restb = spec_records_bytes(rest, format);
        let region = s.subrange(pos, s.len() as int);
        assert(w == rb + restb);
        assert(s.subrange(pos, pos + rl) =~= region.subrange(0, rl));
        assert(region.subrange(0, rl) =~= rb);
        lemma_record_round_trip(r, format);
        assert(s.subrange(pos + rl, s.len() as int) =~= region.subrange(rl, region.len() as int));
        assert(region.subrange(rl, region.len() as int) =~= restb);
        lemma_parse_records_round_trip(s, pos + rl, rest, format);
        assert(seq![r] + rest =~= records);
    }
}

/// Round trip: serializing a file whose points all carry the fields their
/// format declares and no extra bytes, then reading the stream back, yields
/// the derived header, the metadata records, and the point records exactly.
/// When the header's derived fields already hold (as they do for any file
/// the writer itself produced), writing is the exact inverse of reading.
#[verifier::rlimit(100)]
pub proof fn lemma_write_read_round_trip(h: Header, vlrs: Seq<Seq<u8>>, points: Seq<SpecPoint>)
    requires
        (SpecFile { header: h, vlrs, points }).wf(),
        forall|i: int|
            0 <= i < points.len() ==> spec_matches_format(
                (#[trigger] points[i]).record,
                h.point_data_format,
            ) && points[i].record.extra_bytes is None,
    ensures
        ({
            let dh = spec_derived_header(h, vlrs, points);
            let records = points.map_values(|p: SpecPoint| p.record);
            spec_read(spec_file_bytes(dh, vlrs, records)) == Ok::<_, Error>(
                SpecParsed { header: dh, vlrs, records },
            )
        }),
{
    let dh = spec_derived_header(h, vlrs, points);
    let records = points.map_values(|p: SpecPoint| p.record);
    let s = spec_file_bytes(dh, vlrs, records);
    let hb = spec_header_bytes(dh);
    let vb = spec_vlrs_bytes(vlrs);
    let rb = spec_records_bytes(records, dh.point_data_format);
    lemma_file_bytes_split(dh, vlrs, records);
    lemma_header_round_trip(dh, s);
    lemma_parse_vlrs_round_trip(s, HEADER_SIZE as int, vlrs);
    assert(dh.number_of_vlrs as int == vlrs.len());
    assert(dh.offset_to_point_data as int == HEADER_SIZE + vb.len());
    lemma_parse_records_round_trip(s, dh.offset_to_point_data as int, records, dh.point_data_format);
    assert(spec_read(s) == Ok::<_, Error>(SpecParsed { header: dh, vlrs, records }));
}

/// Round-trip identity: when a file's header already carries its derived
/// fields — as the header of any stream the writer produced does — writing
/// the file and reading the stream back reproduces header, metadata records
/// and point records without change.
pub proof fn lemma_round_trip_identity(h: Header, vlrs: Seq<Seq<u8>>, points: Seq<SpecPoint>)
    requires
        (SpecFile { header: h, vlrs, points }).wf(),
        forall|i: int|
            0 <= i < points.len() ==> spec_matches_format(
                (#[trigger] points[i]).record,
                h.point_data_format,
            ) && points[i].record.extra_bytes is None,
        h == spec_derived_header(h, vlrs, points),
    ensures
        spec_read(spec_file_bytes(h, vlrs, points.map_values(|p: SpecPoint| p.record))) == Ok::<
            _,
            Error,
        >(SpecParsed { header: h, vlrs, records: points.map_values(|p: SpecPoint| p.record) }),
{
    lemma_write_read_round_trip(h, vlrs, points);
}

/// The three sections of a file's wire bytes stand at the positions its
/// own lengths dictate.
#[verifier::rlimit(100)]
proof fn lemma_file_bytes_split(dh: Header, vlrs: Seq<Seq<u8>>, records: Seq<SpecRecord>)
    ensures
        ({
            let s = spec_file_bytes(dh, vlrs, records);
            let hb = spec_header_bytes(dh);
            let vb = spec_vlrs_bytes(vlrs);
            let rb = spec_records_bytes(records, dh.point_data_format);
            &&& hb.len() == HEADER_SIZE
            &&& s.len() == HEADER_SIZE + vb.len() + rb.len()
            &&& s.subrange(0, HEADER_SIZE as int) == hb
            &&& s.subrange(HEADER_SIZE as int, HEADER_SIZE + vb.len() as int) == vb
            &&& s.subrange(HEADER_SIZE + vb.len() as int, s.len() as int) == rb
        }),
{
    let s = spec_file_bytes(dh, vlrs, records);
    let hb = spec_header_bytes(dh);
    let vb = spec_vlrs_bytes(vlrs);
    let rb = spec_records_bytes(records, dh.point_data_format);
    assert(hb.len() == HEADER_SIZE);
    assert(s.subrange(0, HEADER_SIZE as int) =~= hb);
    assert(s.subrange(HEADER_SIZE as int, HEADER_SIZE + vb.len() as int) =~= vb);
    assert(s.subrange(HEADER_SIZE + vb.len() as int, s.len() as int) =~= rb);
}

/// Degenerate bounds: a file with no points derives the positive-infinity
/// pattern as each axis minimum and the negative-infinity pattern as each
/// axis maximum — a reproducible value, not a failure.
pub proof fn lemma_empty_file_bounds(h: Header, vlrs: Seq<Seq<u8>>)
    ensures
        spec_derived_header(h, vlrs, Seq::empty()).x_min_bits == F64_POS_INF_BITS,
        spec_derived_header(h, vlrs, Seq::empty()).y_min_bits == F64_POS_INF_BITS,
        spec_derived_header(h, vlrs, Seq::empty()).z_min_bits == F64_POS_INF_BITS,
        spec_derived_header(h, vlrs, Seq::empty()).x_max_bits == F64_NEG_INF_BITS,
        spec_derived_header(h, vlrs, Seq::empty()).y_max_bits == F64_NEG_INF_BITS,
        spec_derived_header(h, vlrs, Seq::empty()).z_max_bits == F64_NEG_INF_BITS,
{
}

/// Appending one point raises exactly the tally of its own return number,
/// and no other.
proof fn lemma_count_return_push(points: Seq<SpecPoint>, p: SpecPoint, rn: u8)
    ensures
        spec_count_return(points.push(p), rn) == spec_count_return(points, rn) + (
        if p.record.return_number == rn {
            1int
        } else {
            0
        }),
    decreases points.len(),
{
    if points.len() == 0 {
        assert(points.push(p).drop_first() =~= Seq::<SpecPoint>::empty());
        assert(points.push(p).first() == p);
        assert(spec_count_return(Seq::<SpecPoint>::empty(), rn) == 0);
        assert(spec_count_return(points.push(p), rn) == (if p.record.return_number == rn {
            1int
        } else {
            0
        }));
    } else {
        assert(points.push(p).drop_first() =~= points.drop_first().push(p));
        assert(points.push(p).first() == points.first());
        lemma_count_return_push(points.drop_first(), p, rn);
        assert(spec_count_return(points.push(p), rn) == (if points.first().record.return_number
            == rn {
            1int
        } else {
            0
        }) + spec_count_return(points.drop_first().push(p), rn));
    }
}

/// Tally boundaries: a point with return number zero contributes to no
/// bucket; return number five contributes to the fifth bucket; return
/// numbers six and seven contribute to no bucket.
pub proof fn lemma_return_tally_boundary(points: Seq<SpecPoint>, p: SpecPoint)
    ensures
        p.record.return_number == 0 || p.record.return_number > 5 ==> forall|rn: u8|
            1 <= rn <= 5 ==> spec_count_return(points.push(p), rn) == spec_count_return(
                points,
                rn,
            ),
        p.record.return_number == 5 ==> spec_count_return(points.push(p), 5) == spec_count_return(
            points,
            5,
        ) + 1,
{
    assert forall|rn: u8| 1 <= rn <= 5 implies spec_count_return(points.push(p), rn)
        == spec_count_return(points, rn) + (if p.record.return_number == rn {
        1int
    } else {
        0
    }) by {
        lemma_count_return_push(points, p, rn);
    }
}

/// What reading a whole stream yields: the header, the declared run of
/// metadata records, and point records from the declared offset to the
/// stream's end; or the first failure. The declared header size and point
/// offset may exceed the sections they close, leaving padding the parse
/// skips.
pub open spec fn spec_read(s: Seq<u8>) -> Result<SpecParsed, Error> {
    match spec_parse_header(s) {
        Err(e) => Err(e),
        Ok(h) => {
            if h.header_size < HEADER_SIZE {
                Err(Error::ShortRead)
            } else if s.len() < h.header_size {
                Err(Error::ShortRead)
            } else {
                match spec_parse_vlrs(s, h.header_size as int, h.number_of_vlrs as int) {
                    Err(e) => Err(e),
                    Ok((vlrs, end)) => {
                        if end > h.offset_to_point_data || s.len() < h.offset_to_point_data {
                            Err(Error::ShortRead)
                        } else if h.point_data_record_length
                            < h.point_data_format.spec_record_length() {
                            Err(Error::ShortRead)
                        } else {
                            match spec_parse_records(
                                s,
                                h.offset_to_point_data as int,
                                h.point_data_record_length as int,
                                h.point_data_format,
                            ) {
                                Err(e) => Err(e),
                                Ok(records) => Ok(SpecParsed { header: h, vlrs, records }),
                            }
                        }
                    },
                }
            }
        },
    }
}

} // verus!
