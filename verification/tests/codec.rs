//! Field-level codec behavior: bit packing, point formats, single records,
//! metadata records, and the header.

use las::error::{Error, MissingField};
use las::format::PointFormat;
use las::header::{parse_header, write_header_to, Header, HEADER_SIZE};
use las::packing::{
    pack_classification, pack_return_info, unpack_classification, unpack_return_info,
};
use las::record::{decode_record, write_record_to, PointRecord};
use las::vlr::{parse_vlr, write_vlr_to, Vlr};

fn sample_record() -> PointRecord {
    let mut r = PointRecord::new();
    r.x_raw = -12345;
    r.y_raw = 67890;
    r.z_raw = 42;
    r.intensity = 511;
    r.return_number = 2;
    r.number_of_returns = 5;
    r.scan_direction = 1;
    r.edge_of_flight_line = true;
    r.classification = 17;
    r.synthetic = true;
    r.key_point = false;
    r.withheld = true;
    r.scan_angle_rank = -13;
    r.user_data = 200;
    r.point_source_id = 4097;
    r
}

#[test]
fn return_info_byte_round_trips() {
    for rn in 0u8..8 {
        for nr in 0u8..8 {
            for sd in 0u8..2 {
                for edge in [false, true] {
                    let byte = pack_return_info(rn, nr, sd, edge);
                    let (rn2, nr2, sd2, edge2) = unpack_return_info(byte);
                    assert_eq!(rn, rn2);
                    assert_eq!(nr, nr2);
                    assert_eq!(sd, sd2);
                    assert_eq!(edge, edge2);
                }
            }
        }
    }
}

#[test]
fn classification_byte_round_trips() {
    for class in 0u8..32 {
        for syn in [false, true] {
            for key in [false, true] {
                for wh in [false, true] {
                    let byte = pack_classification(class, syn, key, wh);
                    let (c2, s2, k2, w2) = unpack_classification(byte);
                    assert_eq!(class, c2);
                    assert_eq!(syn, s2);
                    assert_eq!(key, k2);
                    assert_eq!(wh, w2);
                }
            }
        }
    }
}

#[test]
fn return_info_byte_layout_is_exact() {
    assert_eq!(pack_return_info(0, 0, 0, false), 0x00);
    assert_eq!(pack_return_info(7, 0, 0, false), 0x07);
    assert_eq!(pack_return_info(0, 7, 0, false), 0x38);
    assert_eq!(pack_return_info(0, 0, 1, false), 0x40);
    assert_eq!(pack_return_info(0, 0, 0, true), 0x80);
    assert_eq!(pack_return_info(3, 5, 1, true), 0x03 | 0x28 | 0x40 | 0x80);
}

#[test]
fn format_capabilities_and_lengths() {
    assert_eq!(PointFormat::Format0.record_length(), 20);
    assert_eq!(PointFormat::Format1.record_length(), 28);
    assert_eq!(PointFormat::Format2.record_length(), 26);
    assert_eq!(PointFormat::Format3.record_length(), 34);
    assert!(!PointFormat::Format0.has_time() && !PointFormat::Format0.has_color());
    assert!(PointFormat::Format1.has_time() && !PointFormat::Format1.has_color());
    assert!(!PointFormat::Format2.has_time() && PointFormat::Format2.has_color());
    assert!(PointFormat::Format3.has_time() && PointFormat::Format3.has_color());
    assert_eq!(PointFormat::from_code(2), Some(PointFormat::Format2));
    assert_eq!(PointFormat::from_code(4), None);
}

#[test]
fn encoding_without_gps_time_is_gated_by_format() {
    let r = sample_record();
    let mut out = Vec::new();
    let res = write_record_to(&mut out, &r, PointFormat::Format1);
    assert_eq!(
        res,
        Err(Error::PointFormatMismatch(PointFormat::Format1, MissingField::GpsTime))
    );
    assert!(out.is_empty());

    let res = write_record_to(&mut out, &r, PointFormat::Format0);
    assert_eq!(res, Ok(()));
    assert_eq!(out.len(), 20);
}

#[test]
fn encoding_without_color_reports_the_missing_channel() {
    let mut r = sample_record();
    let mut out = Vec::new();
    assert_eq!(
        write_record_to(&mut out, &r, PointFormat::Format2),
        Err(Error::PointFormatMismatch(PointFormat::Format2, MissingField::Red))
    );
    r.red = Some(1);
    assert_eq!(
        write_record_to(&mut out, &r, PointFormat::Format2),
        Err(Error::PointFormatMismatch(PointFormat::Format2, MissingField::Green))
    );
    r.green = Some(2);
    assert_eq!(
        write_record_to(&mut out, &r, PointFormat::Format2),
        Err(Error::PointFormatMismatch(PointFormat::Format2, MissingField::Blue))
    );
    r.blue = Some(3);
    assert_eq!(write_record_to(&mut out, &r, PointFormat::Format2), Ok(()));
    assert_eq!(out.len(), 26);
}

#[test]
fn record_bytes_are_little_endian_and_ordered() {
    let mut r = PointRecord::new();
    r.x_raw = 1;
    r.y_raw = -1;
    r.z_raw = 0x0102_0304;
    r.intensity = 0xABCD;
    r.point_source_id = 0x1234;
    let mut out = Vec::new();
    write_record_to(&mut out, &r, PointFormat::Format0).unwrap();
    assert_eq!(&out[0..4], &[1, 0, 0, 0]);
    assert_eq!(&out[4..8], &[0xFF, 0xFF, 0xFF, 0xFF]);
    assert_eq!(&out[8..12], &[0x04, 0x03, 0x02, 0x01]);
    assert_eq!(&out[12..14], &[0xCD, 0xAB]);
    assert_eq!(&out[18..20], &[0x34, 0x12]);
}

#[test]
fn full_record_round_trips_through_bytes() {
    let mut r = sample_record();
    r.gps_time = Some(123.456f64.to_bits());
    r.red = Some(11);
    r.green = Some(22);
    r.blue = Some(33);
    r.extra_bytes = Some(vec![9, 8, 7]);
    let mut out = Vec::new();
    write_record_to(&mut out, &r, PointFormat::Format3).unwrap();
    assert_eq!(out.len(), 34 + 3);

    let decoded = decode_record(&out, 0, out.len() as u16, PointFormat::Format3).unwrap();
    assert_eq!(decoded.x_raw, r.x_raw);
    assert_eq!(decoded.y_raw, r.y_raw);
    assert_eq!(decoded.z_raw, r.z_raw);
    assert_eq!(decoded.intensity, r.intensity);
    assert_eq!(decoded.return_number, r.return_number);
    assert_eq!(decoded.number_of_returns, r.number_of_returns);
    assert_eq!(decoded.scan_direction, r.scan_direction);
    assert_eq!(decoded.edge_of_flight_line, r.edge_of_flight_line);
    assert_eq!(decoded.classification, r.classification);
    assert_eq!(decoded.synthetic, r.synthetic);
    assert_eq!(decoded.key_point, r.key_point);
    assert_eq!(decoded.withheld, r.withheld);
    assert_eq!(decoded.scan_angle_rank, r.scan_angle_rank);
    assert_eq!(decoded.user_data, r.user_data);
    assert_eq!(decoded.point_source_id, r.point_source_id);
    assert_eq!(decoded.gps_time, Some(123.456f64.to_bits()));
    assert_eq!(decoded.red, Some(11));
    assert_eq!(decoded.green, Some(22));
    assert_eq!(decoded.blue, Some(33));
    assert_eq!(decoded.extra_bytes, Some(vec![9, 8, 7]));
}

#[test]
fn decoding_a_record_shorter_than_its_format_is_a_short_read() {
    let buf = vec![0u8; 34];
    assert!(matches!(
        decode_record(&buf, 0, 20, PointFormat::Format3),
        Err(Error::ShortRead)
    ));
}

#[test]
fn vlr_round_trips_with_length_prefix() {
    let vlr = Vlr::new(vec![1, 2, 3, 4, 5]);
    assert_eq!(vlr.len(), 9);
    let mut out = Vec::new();
    write_vlr_to(&mut out, &vlr);
    assert_eq!(&out[0..4], &[5, 0, 0, 0]);
    let (back, end) = parse_vlr(&out, 0).unwrap();
    assert_eq!(back.body, vec![1, 2, 3, 4, 5]);
    assert_eq!(end, 9);
}

#[test]
fn truncated_vlr_is_a_short_read() {
    let vlr = Vlr::new(vec![1, 2, 3, 4, 5]);
    let mut out = Vec::new();
    write_vlr_to(&mut out, &vlr);
    out.pop();
    assert!(matches!(parse_vlr(&out, 0), Err(Error::ShortRead)));
}

#[test]
fn header_round_trips_through_bytes() {
    let mut h = Header::new();
    h.point_data_format = PointFormat::Format3;
    h.point_data_record_length = 34;
    h.number_of_point_records = 7;
    h.points_by_return_3 = 7;
    h.x_scale_bits = 0.001f64.to_bits();
    h.y_offset_bits = (-100.5f64).to_bits();
    h.z_max_bits = 99.25f64.to_bits();
    let mut out = Vec::new();
    write_header_to(&mut out, &h);
    assert_eq!(out.len(), HEADER_SIZE as usize);
    let back = parse_header(&out).unwrap();
    assert_eq!(back, h);
}

#[test]
fn header_parse_failures_are_tagged() {
    let short = vec![0u8; HEADER_SIZE as usize - 1];
    assert_eq!(parse_header(&short), Err(Error::ShortRead));

    let mut out = Vec::new();
    write_header_to(&mut out, &Header::new());
    out[10] = 7;
    assert_eq!(parse_header(&out), Err(Error::UnknownPointFormat(7)));
}
