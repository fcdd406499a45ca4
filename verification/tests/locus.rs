use ada_gps::locus::logged_point::{parse_data_fields, parse_point, DataPoints, Error, LoggedPoint};

fn chunks(texts: &[&[u8]]) -> Vec<Vec<u8>> {
    texts.iter().map(|text| text.to_vec()).collect()
}

#[test]
fn a_point_is_read_from_sixteen_bytes() {
    let mut bytes = [0_u8; 16];
    bytes[0..4].copy_from_slice(&1_546_300_800_u32.to_le_bytes());
    bytes[4] = 0x02;
    bytes[5..9].copy_from_slice(&47.5_f32.to_le_bytes());
    bytes[9..13].copy_from_slice(&(-122.25_f32).to_le_bytes());
    bytes[13..15].copy_from_slice(&(-12_i16).to_le_bytes());
    bytes[15] = bytes[..15].iter().fold(0, |sum, byte| sum ^ byte);

    let point = parse_point(&bytes).unwrap();
    assert_eq!(
        point,
        LoggedPoint {
            timestamp: 1_546_300_800,
            fix: 0x02,
            latitude: 47.5_f32.to_bits(),
            longitude: (-122.25_f32).to_bits(),
            height: -12,
            temp_checksum: 0,
        }
    );
    assert!(point.checksum_is_valid());
}

#[test]
fn a_point_has_a_right_checksum_exactly_if_its_bytes_xor_to_zero() {
    let mut bytes = [0_u8; 16];
    for seed in 0..2_000_u32 {
        for (i, byte) in bytes.iter_mut().enumerate() {
            *byte = (seed.wrapping_mul(2_654_435_761).rotate_left(i as u32) ^ (i as u32 * 37)) as u8;
        }
        let rest = bytes[..15].iter().fold(0, |sum, byte| sum ^ byte);
        let point = parse_point(&bytes).unwrap();
        assert_eq!(point.checksum_is_valid(), rest == bytes[15]);
        assert_eq!(point.temp_checksum, rest ^ bytes[15]);
        bytes[15] = rest;
        let point = parse_point(&bytes).unwrap();
        assert!(point.checksum_is_valid());
        assert_eq!(point.temp_checksum, 0);
    }
}

#[test]
fn points_are_read_from_groups_of_four_chunks() {
    let fields = chunks(&[
        b"0f0E0d0C", b"02000020", b"42000048", b"4364000F", b"10000000", b"02000000",
        b"00000000", b"000000FF",
    ]);
    let first = LoggedPoint {
        timestamp: 0x0C0D_0E0F,
        fix: 0x02,
        latitude: 0x4220_0000,
        longitude: 0x4348_0000,
        height: 0x0064,
        temp_checksum: 0,
    };
    let second = LoggedPoint {
        timestamp: 0x10,
        fix: 0x02,
        latitude: 0,
        longitude: 0,
        height: 0,
        temp_checksum: 0xED,
    };
    assert_eq!(
        parse_data_fields(&fields, true),
        DataPoints {
            points: vec![first, second],
            mismatches: 1,
            failure: None,
        }
    );
    assert_eq!(
        parse_data_fields(&fields, false),
        DataPoints {
            points: vec![first],
            mismatches: 1,
            failure: None,
        }
    );
    assert_eq!(
        parse_data_fields(&[], true),
        DataPoints {
            points: vec![],
            mismatches: 0,
            failure: None,
        }
    );
}

#[test]
fn chunks_are_checked_by_count_then_in_order_by_length_and_digits() {
    let good: &[u8] = b"00000000";
    for count in [1, 2, 3, 5, 6, 7, 9] {
        let fields = chunks(&vec![good; count]);
        assert_eq!(
            parse_data_fields(&fields, true).failure,
            Some(Error::InvalidFieldCount)
        );
        assert!(parse_data_fields(&fields, true).points.is_empty());
    }
    assert_eq!(
        parse_data_fields(&chunks(&[b"0000000", good, good]), true).failure,
        Some(Error::InvalidFieldCount)
    );
    assert_eq!(
        parse_data_fields(&chunks(&[good, good, b"0000000", b"0000000G"]), true)
            .failure,
        Some(Error::InvalidFieldLength)
    );
    assert_eq!(
        parse_data_fields(&chunks(&[good, b"0000000G", b"0000000", good]), true)
            .failure,
        Some(Error::HexDecode)
    );
    assert_eq!(
        parse_data_fields(&chunks(&[good, good, good, b"000000000"]), true)
            .failure,
        Some(Error::InvalidFieldLength)
    );
    assert_eq!(
        parse_data_fields(&chunks(&[good, good, good, b""]), true)
            .failure,
        Some(Error::InvalidFieldLength)
    );
    assert_eq!(
        parse_data_fields(&chunks(&[good, good, good, b"+0000000"]), true)
            .failure,
        Some(Error::HexDecode)
    );
    assert_eq!(
        parse_data_fields(
            &chunks(&[good, good, good, good, good, good, b" 0000000", good]),
            false
        )
            .failure,
        Some(Error::HexDecode)
    );
}

#[test]
fn every_pair_of_hexadecimal_digits_is_read_as_its_byte() {
    let digits = b"0123456789abcdefABCDEF";
    let value = |digit: u8| (digit as char).to_digit(16).unwrap() as u8;
    for &high in digits {
        for &low in digits {
            let fields = chunks(&[
                &[high, low, b'0', b'0', b'0', b'0', b'0', b'0'],
                b"00000000",
                b"00000000",
                &[b'0', b'0', b'0', b'0', b'0', b'0', low, high],
            ]);
            let data = parse_data_fields(&fields, true);
            assert_eq!(data.failure, None);
            assert_eq!(data.points.len(), 1);
            let first = 16 * value(high) + value(low);
            let last = 16 * value(low) + value(high);
            assert_eq!(data.points[0].timestamp, first as u32);
            assert_eq!(data.points[0].temp_checksum, first ^ last);
        }
    }
    for byte in 0..=u8::MAX {
        if byte.is_ascii_hexdigit() {
            continue;
        }
        let fields = chunks(&[
            b"00000000",
            &[b'0', b'0', b'0', byte, b'0', b'0', b'0', b'0'],
            b"00000000",
            b"00000000",
        ]);
        assert_eq!(parse_data_fields(&fields, true).failure, Some(Error::HexDecode));
    }
}

#[test]
fn the_points_before_a_bad_chunk_are_read_all_the_same() {
    let good: &[u8] = b"00000000";
    let odd: &[u8] = b"000000FF";
    let fields = chunks(&[
        good, good, good, good, good, good, good, odd, good, good, b"0000000G", good, good, good,
        good, good,
    ]);
    let data = parse_data_fields(&fields, true);
    assert_eq!(data.failure, Some(Error::HexDecode));
    assert_eq!(data.points.len(), 2);
    assert_eq!(data.points[0].temp_checksum, 0);
    assert_eq!(data.points[1].temp_checksum, 0xFF);
    assert_eq!(data.mismatches, 1);

    let data = parse_data_fields(&fields, false);
    assert_eq!(data.failure, Some(Error::HexDecode));
    assert_eq!(data.points.len(), 1);
    assert_eq!(data.mismatches, 1);

    // A bad chunk in the first group leaves no point.
    let fields = chunks(&[good, good, good, b"", good, good, good, good]);
    let data = parse_data_fields(&fields, true);
    assert_eq!(data.failure, Some(Error::InvalidFieldLength));
    assert!(data.points.is_empty());

    // A wrong number of chunks leaves no point either.
    let fields = chunks(&[good, good, good, good, good]);
    let data = parse_data_fields(&fields, true);
    assert_eq!(data.failure, Some(Error::InvalidFieldCount));
    assert!(data.points.is_empty());
}
