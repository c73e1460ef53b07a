//! Whole-file behavior: derived header fields, bounds, tallies, padding,
//! and the write/read round trip.

use las::error::Error;
use las::file::{File, ParsedFile};
use las::format::PointFormat;
use las::header::{write_header_to, Header, HEADER_SIZE};
use las::point::Point;
use las::record::PointRecord;
use las::vlr::{write_vlr_to, Vlr};

/// The scale transform: a stored fixed-point integer to a real coordinate.
fn scale(raw: i32, scale_factor: f64, offset: f64) -> f64 {
    raw as f64 * scale_factor + offset
}

/// The inverse scale transform: a real coordinate to its stored form.
fn descale(value: f64, scale_factor: f64, offset: f64) -> i32 {
    ((value - offset) / scale_factor).round() as i32
}

/// A point at real coordinates under the header's x/y/z transforms, with
/// both representations filled consistently.
fn point_at(h: &Header, x: f64, y: f64, z: f64) -> Point {
    let mut record = PointRecord::new();
    record.x_raw = descale(x, f64::from_bits(h.x_scale_bits), f64::from_bits(h.x_offset_bits));
    record.y_raw = descale(y, f64::from_bits(h.y_scale_bits), f64::from_bits(h.y_offset_bits));
    record.z_raw = descale(z, f64::from_bits(h.z_scale_bits), f64::from_bits(h.z_offset_bits));
    Point { x_bits: x.to_bits(), y_bits: y.to_bits(), z_bits: z.to_bits(), record }
}

/// Completes a parsed stream back into a file, applying the scale
/// transform to recover each point's real coordinates.
fn complete(parsed: ParsedFile) -> File {
    let h = parsed.header;
    let points = parsed
        .records
        .into_iter()
        .map(|record| {
            let x = scale(record.x_raw, f64::from_bits(h.x_scale_bits), f64::from_bits(h.x_offset_bits));
            let y = scale(record.y_raw, f64::from_bits(h.y_scale_bits), f64::from_bits(h.y_offset_bits));
            let z = scale(record.z_raw, f64::from_bits(h.z_scale_bits), f64::from_bits(h.z_offset_bits));
            Point { x_bits: x.to_bits(), y_bits: y.to_bits(), z_bits: z.to_bits(), record }
        })
        .collect();
    File::from_parts(h, parsed.vlrs, points)
}

#[test]
fn write_one_point() {
    let mut file = File::new();
    let point = point_at(file.header(), 1.0, 2.0, 3.0);
    file.add_point(point);
    let bytes = file.write_to().unwrap();

    let parsed = File::read_from(&bytes).unwrap();
    assert_eq!(parsed.records.len(), 1);
    let h = parsed.header;
    let record = &parsed.records[0];
    let x = scale(record.x_raw, f64::from_bits(h.x_scale_bits), f64::from_bits(h.x_offset_bits));
    let y = scale(record.y_raw, f64::from_bits(h.y_scale_bits), f64::from_bits(h.y_offset_bits));
    let z = scale(record.z_raw, f64::from_bits(h.z_scale_bits), f64::from_bits(h.z_offset_bits));
    assert_eq!(1.0, x);
    assert_eq!(2.0, y);
    assert_eq!(3.0, z);
    assert_eq!(h.number_of_point_records, 1);
    assert_eq!(f64::from_bits(h.x_min_bits), 1.0);
    assert_eq!(f64::from_bits(h.x_max_bits), 1.0);
    assert_eq!(f64::from_bits(h.z_min_bits), 3.0);
}

#[test]
fn empty_file_bounds_are_infinite() {
    let mut file = File::new();
    let bytes = file.write_to().unwrap();
    let parsed = File::read_from(&bytes).unwrap();
    let h = parsed.header;
    assert_eq!(h.number_of_point_records, 0);
    assert_eq!(f64::from_bits(h.x_min_bits), f64::INFINITY);
    assert_eq!(f64::from_bits(h.y_min_bits), f64::INFINITY);
    assert_eq!(f64::from_bits(h.z_min_bits), f64::INFINITY);
    assert_eq!(f64::from_bits(h.x_max_bits), f64::NEG_INFINITY);
    assert_eq!(f64::from_bits(h.y_max_bits), f64::NEG_INFINITY);
    assert_eq!(f64::from_bits(h.z_max_bits), f64::NEG_INFINITY);
}

#[test]
fn return_tally_counts_only_returns_one_through_five() {
    let mut file = File::new();
    for rn in [0u8, 1, 5, 6, 7, 5] {
        let mut p = point_at(file.header(), 0.0, 0.0, 0.0);
        p.record.return_number = rn;
        file.add_point(p);
    }
    let bytes = file.write_to().unwrap();
    let h = File::read_from(&bytes).unwrap().header;
    assert_eq!(h.number_of_point_records, 6);
    assert_eq!(h.points_by_return_1, 1);
    assert_eq!(h.points_by_return_2, 0);
    assert_eq!(h.points_by_return_3, 0);
    assert_eq!(h.points_by_return_4, 0);
    assert_eq!(h.points_by_return_5, 2);
}

#[test]
fn bounds_cover_all_points() {
    let mut file = File::new();
    for (x, y, z) in [(-5.0, 2.0, 7.0), (3.0, -9.0, 7.5), (0.0, 11.0, -2.25)] {
        let p = point_at(file.header(), x, y, z);
        file.add_point(p);
    }
    file.write_to().unwrap();
    let h = *file.header();
    assert_eq!(f64::from_bits(h.x_min_bits), -5.0);
    assert_eq!(f64::from_bits(h.x_max_bits), 3.0);
    assert_eq!(f64::from_bits(h.y_min_bits), -9.0);
    assert_eq!(f64::from_bits(h.y_max_bits), 11.0);
    assert_eq!(f64::from_bits(h.z_min_bits), -2.25);
    assert_eq!(f64::from_bits(h.z_max_bits), 7.5);
}

#[test]
fn offset_to_point_data_accounts_for_metadata_records() {
    let mut header = Header::new();
    header.point_data_format = PointFormat::Format1;
    let vlrs = vec![Vlr::new(vec![1, 2, 3]), Vlr::new(vec![])];
    let mut file = File::from_parts(header, vlrs, Vec::new());
    let bytes = file.write_to().unwrap();
    let h = File::read_from(&bytes).unwrap().header;
    assert_eq!(h.header_size, HEADER_SIZE);
    assert_eq!(h.number_of_vlrs, 2);
    assert_eq!(h.offset_to_point_data, HEADER_SIZE as u32 + 7 + 4);
    assert_eq!(h.point_data_record_length, 28);
    assert_eq!(bytes.len(), h.offset_to_point_data as usize);
}

#[test]
fn file_round_trip_reproduces_stream_and_data() {
    let mut header = Header::new();
    header.point_data_format = PointFormat::Format3;
    let vlrs = vec![Vlr::new(vec![10, 20, 30, 40]), Vlr::new(vec![55])];
    let mut file = File::from_parts(header, vlrs, Vec::new());
    for (i, (x, y, z)) in [(1.0, -2.0, 3.0), (4.0, 5.0, -6.0)].into_iter().enumerate() {
        let mut p = point_at(file.header(), x, y, z);
        p.record.return_number = 1 + i as u8;
        p.record.gps_time = Some((1000.25 + i as f64).to_bits());
        p.record.red = Some(100 + i as u16);
        p.record.green = Some(200);
        p.record.blue = Some(300);
        file.add_point(p);
    }
    let bytes = file.write_to().unwrap();

    let parsed = File::read_from(&bytes).unwrap();
    assert_eq!(parsed.header, *file.header());
    assert_eq!(parsed.vlrs.len(), 2);
    assert_eq!(parsed.vlrs[0].body, vec![10, 20, 30, 40]);
    assert_eq!(parsed.vlrs[1].body, vec![55]);
    assert_eq!(parsed.records.len(), 2);
    assert_eq!(parsed.records[0].gps_time, Some(1000.25f64.to_bits()));
    assert_eq!(parsed.records[1].red, Some(101));

    let mut again = complete(parsed);
    let bytes2 = again.write_to().unwrap();
    assert_eq!(bytes, bytes2);

    let parsed2 = File::read_from(&bytes2).unwrap();
    assert_eq!(parsed2.header, *again.header());
    assert_eq!(parsed2.records.len(), 2);
    assert_eq!(parsed2.records[0].x_raw, 1);
    assert_eq!(parsed2.records[1].z_raw, -6);
}

#[test]
fn writing_a_point_missing_its_gps_time_fails_and_derives_the_header() {
    let mut header = Header::new();
    header.point_data_format = PointFormat::Format1;
    let mut file = File::from_parts(header, Vec::new(), Vec::new());
    let p = point_at(file.header(), 9.0, 9.0, 9.0);
    file.add_point(p);
    let res = file.write_to();
    assert!(matches!(res, Err(Error::PointFormatMismatch(PointFormat::Format1, _))));
    assert_eq!(file.header().number_of_point_records, 1);
    assert_eq!(f64::from_bits(file.header().x_min_bits), 9.0);
}

#[test]
fn truncated_point_data_is_a_short_read() {
    let mut file = File::new();
    file.add_point(point_at(file.header(), 1.0, 1.0, 1.0));
    let mut bytes = file.write_to().unwrap();
    bytes.pop();
    assert!(matches!(File::read_from(&bytes), Err(Error::ShortRead)));
}

#[test]
fn declared_padding_after_header_and_metadata_is_skipped() {
    let mut h = Header::new();
    h.header_size = HEADER_SIZE + 5;
    let vlr_bytes_len: u32 = 4 + 3;
    h.number_of_vlrs = 1;
    h.offset_to_point_data = h.header_size as u32 + vlr_bytes_len + 2;
    h.point_data_format = PointFormat::Format0;
    h.point_data_record_length = 20;

    let mut stream = Vec::new();
    write_header_to(&mut stream, &h);
    stream.extend_from_slice(&[0, 0, 0, 0, 0]);
    write_vlr_to(&mut stream, &Vlr::new(vec![7, 8, 9]));
    stream.extend_from_slice(&[0, 0]);
    let mut record_bytes = vec![0u8; 20];
    record_bytes[0] = 5;
    stream.extend_from_slice(&record_bytes);

    let parsed = File::read_from(&stream).unwrap();
    assert_eq!(parsed.header, h);
    assert_eq!(parsed.vlrs[0].body, vec![7, 8, 9]);
    assert_eq!(parsed.records.len(), 1);
    assert_eq!(parsed.records[0].x_raw, 5);
}

#[test]
fn read_failures_on_malformed_streams() {
    let empty: Vec<u8> = Vec::new();
    assert!(matches!(File::read_from(&empty), Err(Error::ShortRead)));

    let mut h = Header::new();
    h.number_of_vlrs = 1;
    let mut stream = Vec::new();
    write_header_to(&mut stream, &h);
    assert!(matches!(File::read_from(&stream), Err(Error::ShortRead)));
}
