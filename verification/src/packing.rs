//! The two bit-packed bytes of a point record: the return-information byte
//! and the classification byte.

use vstd::prelude::*;

verus! {

/// The return-information byte: bits 0-2 the return number, bits 3-5 the
/// number of returns, bit 6 the scan direction, bit 7 the edge flag.
pub open spec fn spec_pack_return_info(
    return_number: u8,
    number_of_returns: u8,
    scan_direction: u8,
    edge_of_flight_line: bool,
) -> u8
    recommends
        return_number < 8,
        number_of_returns < 8,
        scan_direction < 2,
{
    return_number | number_of_returns << 3 | scan_direction << 6
        | if edge_of_flight_line { 0x80u8 } else { 0u8 }
}

/// The return number held in a return-information byte.
pub open spec fn spec_return_number(byte: u8) -> u8 {
    byte & 0x07
}

/// The number of returns held in a return-information byte.
pub open spec fn spec_number_of_returns(byte: u8) -> u8 {
    byte >> 3 & 0x07
}

/// The scan direction held in a return-information byte.
pub open spec fn spec_scan_direction(byte: u8) -> u8 {
    byte >> 6 & 0x01
}

/// The edge-of-flight-line flag held in a return-information byte.
pub open spec fn spec_edge_of_flight_line(byte: u8) -> bool {
    byte >> 7 == 1
}

/// The classification byte: bits 0-4 the classification, bit 5 synthetic,
/// bit 6 key-point, bit 7 withheld.
pub open spec fn spec_pack_classification(
    classification: u8,
    synthetic: bool,
    key_point: bool,
    withheld: bool,
) -> u8
    recommends
        classification < 32,
{
    classification | if synthetic { 0x20u8 } else { 0u8 } | if key_point { 0x40u8 } else { 0u8 }
        | if withheld { 0x80u8 } else { 0u8 }
}

/// The classification held in a classification byte.
pub open spec fn spec_classification(byte: u8) -> u8 {
    byte & 0x1f
}

/// The synthetic flag held in a classification byte.
pub open spec fn spec_synthetic(byte: u8) -> bool {
    byte >> 5 & 0x01 == 1
}

/// The key-point flag held in a classification byte.
pub open spec fn spec_key_point(byte: u8) -> bool {
    byte >> 6 & 0x01 == 1
}

/// The withheld flag held in a classification byte.
pub open spec fn spec_withheld(byte: u8) -> bool {
    byte >> 7 == 1
}

/// Packing the four return-information fields and unpacking the byte
/// reproduces each field exactly.
pub proof fn lemma_return_info_round_trip(
    return_number: u8,
    number_of_returns: u8,
    scan_direction: u8,
    edge_of_flight_line: bool,
)
    requires
        return_number < 8,
        number_of_returns < 8,
        scan_direction < 2,
    ensures
        spec_return_number(
            spec_pack_return_info(
                return_number,
                number_of_returns,
                scan_direction,
                edge_of_flight_line,
            ),
        ) == return_number,
        spec_number_of_returns(
            spec_pack_return_info(
                return_number,
                number_of_returns,
                scan_direction,
                edge_of_flight_line,
            ),
        ) == number_of_returns,
        spec_scan_direction(
            spec_pack_return_info(
                return_number,
                number_of_returns,
                scan_direction,
                edge_of_flight_line,
            ),
        ) == scan_direction,
        spec_edge_of_flight_line(
            spec_pack_return_info(
                return_number,
                number_of_returns,
                scan_direction,
                edge_of_flight_line,
            ),
        ) == edge_of_flight_line,
{
    let rn = return_number;
    let nr = number_of_returns;
    let sd = scan_direction;
    let e: u8 = if edge_of_flight_line { 0x80 } else { 0 };
    assert((rn | nr << 3 | sd << 6 | e) & 0x07 == rn && (rn | nr << 3 | sd << 6 | e) >> 3 & 0x07
        == nr && (rn | nr << 3 | sd << 6 | e) >> 6 & 0x01 == sd && ((rn | nr << 3 | sd << 6 | e)
        >> 7 == 1) == (e == 0x80)) by (bit_vector)
        requires
            rn < 8 && nr < 8 && sd < 2 && (e == 0x80 || e == 0),
    ;
}

/// Packing the classification and the three flags and unpacking the byte
/// reproduces each field exactly.
pub proof fn lemma_classification_round_trip(
    classification: u8,
    synthetic: bool,
    key_point: bool,
    withheld: bool,
)
    requires
        classification < 32,
    ensures
        spec_classification(spec_pack_classification(classification, synthetic, key_point, withheld))
            == classification,
        spec_synthetic(spec_pack_classification(classification, synthetic, key_point, withheld))
            == synthetic,
        spec_key_point(spec_pack_classification(classification, synthetic, key_point, withheld))
            == key_point,
        spec_withheld(spec_pack_classification(classification, synthetic, key_point, withheld))
            == withheld,
{
    let c = classification;
    let s: u8 = if synthetic { 0x20 } else { 0 };
    let k: u8 = if key_point { 0x40 } else { 0 };
    let w: u8 = if withheld { 0x80 } else { 0 };
    assert((c | s | k | w) & 0x1f == c && ((c | s | k | w) >> 5 & 0x01 == 1) == (s == 0x20) && ((c
        | s | k | w) >> 6 & 0x01 == 1) == (k == 0x40) && ((c | s | k | w) >> 7 == 1) == (w == 0x80))
        by (bit_vector)
        requires
            c < 32 && (s == 0x20 || s == 0) && (k == 0x40 || k == 0) && (w == 0x80 || w == 0),
    ;
}

/// Packs the four return-information fields into their byte.
pub fn pack_return_info(
    return_number: u8,
    number_of_returns: u8,
    scan_direction: u8,
    edge_of_flight_line: bool,
) -> (r: u8)
    requires
        return_number < 8,
        number_of_returns < 8,
        scan_direction < 2,
    ensures
        r == spec_pack_return_info(
            return_number,
            number_of_returns,
            scan_direction,
            edge_of_flight_line,
        ),
{
    return_number | number_of_returns << 3 | scan_direction << 6
        | if edge_of_flight_line { 0x80u8 } else { 0u8 }
}

/// Packs the classification and the three flags into their byte.
pub fn pack_classification(
    classification: u8,
    synthetic: bool,
    key_point: bool,
    withheld: bool,
) -> (r: u8)
    requires
        classification < 32,
    ensures
        r == spec_pack_classification(classification, synthetic, key_point, withheld),
{
    classification | if synthetic { 0x20u8 } else { 0u8 } | if key_point { 0x40u8 } else { 0u8 }
        | if withheld { 0x80u8 } else { 0u8 }
}

/// Unpacks the four fields of a return-information byte. The unpacked fields
/// always satisfy the record bounds.
pub fn unpack_return_info(byte: u8) -> (r: (u8, u8, u8, bool))
    ensures
        r.0 == spec_return_number(byte) && r.0 < 8,
        r.1 == spec_number_of_returns(byte) && r.1 < 8,
        r.2 == spec_scan_direction(byte) && r.2 < 2,
        r.3 == spec_edge_of_flight_line(byte),
{
    proof {
        assert(byte & 0x07 < 8 && byte >> 3 & 0x07 < 8 && byte >> 6 & 0x01 < 2) by (bit_vector);
    }
    (byte & 0x07, byte >> 3 & 0x07, byte >> 6 & 0x01, byte >> 7 == 1)
}

/// Unpacks the four fields of a classification byte. The unpacked
/// classification always satisfies the record bound.
pub fn unpack_classification(byte: u8) -> (r: (u8, bool, bool, bool))
    ensures
        r.0 == spec_classification(byte) && r.0 < 32,
        r.1 == spec_synthetic(byte),
        r.2 == spec_key_point(byte),
        r.3 == spec_withheld(byte),
{
    proof {
        assert(byte & 0x1f < 32) by (bit_vector);
    }
    (byte & 0x1f, byte >> 5 & 0x01 == 1, byte >> 6 & 0x01 == 1, byte >> 7 == 1)
}

} // verus!
