use ada_gps::logger::parser::{
    packet_count, packet_size, pair_as_u16, read_fields, read_i16_at, read_u16_at, read_u32_at,
    u16_checksum_for, u8_checksum_for, ContentFlags, Parser, SectorHeader,
};
use ada_gps::logger::{Fix, Packet};
use ada_gps::UtcDateTime;

const ALL_FLAGS: u32 = ContentFlags::UTC
    | ContentFlags::VALID
    | ContentFlags::LAT
    | ContentFlags::LON
    | ContentFlags::HEIGHT
    | ContentFlags::SPEED
    | ContentFlags::TRK
    | ContentFlags::HDOP
    | ContentFlags::NUM_SAT;

/// A sector with these content flags and this packet bitmap, a valid header
/// checksum, and `data` from offset 64 on; the rest is erased flash.
fn sector(flags: u32, bitmap: &[u8], data: &[u8]) -> Vec<u8> {
    let mut sector = vec![0xFF_u8; 4096];
    sector[0..4].copy_from_slice(&[0x01, 0x00, 0x01, 0x00]);
    sector[4..8].copy_from_slice(&flags.to_le_bytes());
    sector[8..14].copy_from_slice(&[0x00, 0x00, 0x0F, 0x00, 0x00, 0x00]);
    let mut checksum = 0_u16;
    for pair in sector[0..14].chunks(2) {
        checksum ^= u16::from_le_bytes([pair[0], pair[1]]);
    }
    sector[14..16].copy_from_slice(&checksum.to_le_bytes());
    sector[16..16 + bitmap.len()].copy_from_slice(bitmap);
    sector[64..64 + data.len()].copy_from_slice(data);
    sector
}

/// The bytes of a packet with all fields, its checksum included.
#[allow(clippy::too_many_arguments)]
fn full_packet(
    time: u32,
    fix: u8,
    lat: f32,
    lon: f32,
    height: i16,
    speed: i16,
    heading: u16,
    hdop: u16,
    num_sat: u8,
) -> Vec<u8> {
    let mut packet = Vec::new();
    packet.extend(time.to_le_bytes());
    packet.push(fix);
    packet.extend(lat.to_le_bytes());
    packet.extend(lon.to_le_bytes());
    packet.extend(height.to_le_bytes());
    packet.extend(speed.to_le_bytes());
    packet.extend(heading.to_le_bytes());
    packet.extend(hdop.to_le_bytes());
    packet.push(num_sat);
    let checksum = packet.iter().fold(0, |sum, byte| sum ^ byte);
    packet.push(checksum);
    packet
}

#[test]
fn a_sector_with_one_packet_of_all_fields_is_read() {
    let packet = full_packet(1_546_300_800, 0x02, 47.5, -122.25, -12, 7, 359, 150, 9);
    assert_eq!(packet.len(), 23);
    let image = sector(ALL_FLAGS, &[0x7F], &packet);
    assert_eq!(&image[64..87], &packet[..]);

    let mut parser = Parser::new();
    parser.parse(&image);

    assert_eq!(parser.stats.sector_count, 1);
    assert_eq!(parser.stats.packets_parsed, 1);
    assert_eq!(parser.stats.invalid_sectors, 0);
    assert_eq!(parser.stats.empty_sectors, 0);
    assert_eq!(parser.stats.invalid_packets, 0);
    assert_eq!(parser.stats.invalid_fields, 0);
    assert_eq!(parser.active_sector, None);
    assert_eq!(
        parser.packets,
        vec![Packet {
            time: UtcDateTime::from_unix(1_546_300_800),
            fix: Some(Fix::GpsFix),
            lat: Some(47.5_f32.to_bits()),
            lon: Some((-122.25_f32).to_bits()),
            height: Some(-12),
            speed: Some(7),
            heading: Some(359),
            hdop: Some(150),
            num_sat: Some(9),
        }]
    );
    let time = parser.packets[0].time.unwrap();
    assert_eq!(
        (time.year, time.month, time.day, time.hour, time.minute, time.second),
        (2019, 1, 1, 0, 0, 0)
    );
}

#[test]
fn sectors_are_counted_by_what_is_wrong_with_them() {
    let good = full_packet(0, 0x00, 0.0, 0.0, 0, 0, 0, 0, 0);
    let mut bad = good.clone();
    bad[5] ^= 0x10;
    let mut data = Vec::new();
    data.extend(&good);
    data.extend(&bad);
    data.extend(&good);

    let mut image = Vec::new();
    // Three packets, of which the second has a wrong checksum.
    image.extend(sector(ALL_FLAGS, &[0x1F], &data));
    // No packet.
    image.extend(sector(ALL_FLAGS, &[], &data));
    // A header with a wrong checksum.
    let mut broken = sector(ALL_FLAGS, &[0x00], &data);
    broken[2] ^= 0x01;
    image.extend(broken);
    // Eight packets of one byte and a checksum each.
    let pairs: Vec<u8> = (0..8).flat_map(|n| [n, n]).collect();
    image.extend(sector(ContentFlags::NUM_SAT, &[0x00], &pairs));
    // Bytes that make no whole sector.
    image.extend([0_u8; 4095]);

    let mut parser = Parser::new();
    parser.parse(&image);

    assert_eq!(parser.stats.sector_count, 4);
    assert_eq!(parser.stats.invalid_sectors, 1);
    assert_eq!(parser.stats.empty_sectors, 1);
    assert_eq!(parser.stats.invalid_packets, 1);
    assert_eq!(parser.stats.packets_parsed, 10);
    assert_eq!(parser.stats.invalid_fields, 0);
    assert_eq!(parser.packets.len(), 10);
    assert_eq!(parser.packets[0].fix, Some(Fix::No));
    for n in 0..8 {
        assert_eq!(
            parser.packets[2 + n],
            Packet {
                num_sat: Some(n as u8),
                ..Packet::default()
            }
        );
    }

    // A second image is counted on top, but for the number of sectors.
    parser.parse(&image[..4096]);
    assert_eq!(parser.stats.sector_count, 1);
    assert_eq!(parser.stats.packets_parsed, 12);
    assert_eq!(parser.stats.invalid_packets, 2);
    assert_eq!(parser.packets.len(), 12);
}

#[test]
fn packets_that_do_not_fit_the_sector_are_not_read() {
    // 384 packets of 23 bytes are counted, of which 175 lie within the
    // sector.
    let image = sector(ALL_FLAGS, &[0x00; 48], &[0x00; 4032]);
    let mut parser = Parser::new();
    parser.parse_sector(&image);
    assert_eq!(parser.stats.packets_parsed, 175);
    assert_eq!(parser.stats.invalid_packets, 0);
    assert_eq!(parser.packets.len(), 175);

    // A sector that ends behind its header has room for none.
    let mut parser = Parser::new();
    parser.parse_sector(&image[..64]);
    assert_eq!(parser.stats.packets_parsed, 0);
    assert_eq!(parser.stats.empty_sectors, 0);
    assert_eq!(parser.active_sector, None);
}

#[test]
fn the_packet_count_follows_the_bitmap_for_every_place_and_byte() {
    for index in 0..48_usize {
        for byte in 0..=0xFE_u8 {
            let mut header = vec![0xFF_u8; 64];
            for place in header[16..16 + index].iter_mut() {
                *place = 0x00;
            }
            header[16 + index] = byte;
            let mut shifts = 0;
            while shifts <= 7 && (byte >> shifts) != 0 {
                shifts += 1;
            }
            let expected = if shifts == 0 {
                (index as u32 + 1) * 8
            } else {
                index as u32 * 8 + (8 - shifts)
            };
            assert_eq!(packet_count(&header), expected, "at {} with {:#x}", index, byte);
        }
    }
    assert_eq!(packet_count(&[0xFF; 64]), 0);
    // What stands before the last written byte does not matter.
    let mut header = vec![0xFF_u8; 64];
    header[16] = 0x12;
    header[20] = 0x3F;
    assert_eq!(packet_count(&header), 4 * 8 + 2);
    header[63] = 0x00;
    assert_eq!(packet_count(&header), 384);
    header[63] = 0x7F;
    assert_eq!(packet_count(&header), 47 * 8 + 1);
    header[63] = 0xFE;
    assert_eq!(packet_count(&header), 47 * 8);
}

#[test]
fn the_packet_size_is_the_sum_of_the_fields_and_a_checksum() {
    let size = |bits: u32| packet_size(ContentFlags::from_bits_truncate(bits));
    assert_eq!(size(0), 1);
    assert_eq!(size(ContentFlags::UTC), 5);
    assert_eq!(size(ContentFlags::VALID), 2);
    assert_eq!(size(ContentFlags::LAT), 5);
    assert_eq!(size(ContentFlags::LON), 5);
    assert_eq!(size(ContentFlags::HEIGHT), 3);
    assert_eq!(size(ContentFlags::SPEED), 3);
    assert_eq!(size(ContentFlags::TRK), 3);
    assert_eq!(size(ContentFlags::HDOP), 3);
    assert_eq!(size(ContentFlags::NUM_SAT), 2);
    assert_eq!(size(ALL_FLAGS), 23);
    // The basic layout: time, fix, position and height.
    assert_eq!(size(0x1F), 16);
    // Flags that are not known count for nothing.
    assert_eq!(size(0xFFFF_FFFF), 23);
    assert_eq!(size(!ALL_FLAGS), 1);
    assert_eq!(ContentFlags::from_bits_truncate(0xFFFF_FFFF).bits, ALL_FLAGS);
    assert_eq!(ContentFlags::ALL, ALL_FLAGS);
    assert!(ContentFlags::from_bits_truncate(0x0400).contains(ContentFlags::HDOP));
    assert!(!ContentFlags::from_bits_truncate(0x0400).contains(ContentFlags::NUM_SAT));
}

#[test]
fn the_header_is_checked_and_read() {
    let image = sector(ContentFlags::UTC | ContentFlags::LAT, &[0x00, 0x0F], &[]);
    let header = SectorHeader::parse(&image[..64]).unwrap();
    assert_eq!(header.content_flags.bits, 0x05);
    assert_eq!(header.packet_size, 9);
    assert_eq!(header.packet_count, 12);

    let mut wrong = image.clone();
    wrong[14] ^= 0x80;
    assert_eq!(SectorHeader::parse(&wrong[..64]), None);
    let mut wrong = image.clone();
    wrong[9] ^= 0x01;
    assert_eq!(SectorHeader::parse(&wrong[..64]), None);
    // The bitmap is not covered by the checksum.
    let mut other = image.clone();
    other[17] = 0xFF;
    assert_eq!(SectorHeader::parse(&other[..64]).unwrap().packet_count, 8);
}

#[test]
fn numbers_are_read_little_endian() {
    let buf = [0x01, 0x02, 0x03, 0x04, 0xFF, 0xFF, 0x00, 0x80];
    assert_eq!(read_u32_at(&buf, 0), 0x0403_0201);
    assert_eq!(read_u32_at(&buf, 4), 0x8000_FFFF);
    assert_eq!(read_u16_at(&buf, 1), 0x0302);
    assert_eq!(read_u16_at(&buf, 6), 0x8000);
    assert_eq!(read_i16_at(&buf, 0), 0x0201);
    assert_eq!(read_i16_at(&buf, 4), -1);
    assert_eq!(read_i16_at(&buf, 6), i16::MIN);
    assert_eq!(read_i16_at(&buf, 5), 0x00FF);
    assert_eq!(read_i16_at(&[0xFF, 0x7F], 0), i16::MAX);
    assert_eq!(pair_as_u16(&[0x34, 0x12]), 0x1234);
    for val in [0_u32, 1, 0x7FFF, 0x8000, 0xFFFF, 0x1_0000, 0xDEAD_BEEF, u32::MAX] {
        assert_eq!(read_u32_at(&val.to_le_bytes(), 0), val);
        let short = val as u16;
        assert_eq!(read_u16_at(&short.to_le_bytes(), 0), short);
        assert_eq!(read_i16_at(&short.to_le_bytes(), 0), short as i16);
    }
}

#[test]
fn checksums_are_the_xor_of_bytes_and_of_words() {
    assert_eq!(u8_checksum_for(&[]), 0);
    assert_eq!(u8_checksum_for(&[0x5A]), 0x5A);
    assert_eq!(u8_checksum_for(&[0x0F, 0xF0, 0x11]), 0xEE);
    assert_eq!(u16_checksum_for(&[]), 0);
    assert_eq!(u16_checksum_for(&[0x34, 0x12]), 0x1234);
    assert_eq!(u16_checksum_for(&[0x34, 0x12, 0x01, 0x10, 0xFF, 0x00]), 0x02CA);
}

#[test]
fn a_position_is_kept_exactly_if_it_is_on_the_globe() {
    let content = ContentFlags::from_bits_truncate(ContentFlags::LAT | ContentFlags::LON);
    let check = |bits: u32| {
        let value = f32::from_bits(bits);
        let mut data = Vec::new();
        data.extend(bits.to_le_bytes());
        data.extend(bits.to_le_bytes());
        let (packet, invalid) = read_fields(content, &data);
        let lat_ok = value >= -90.0 && value <= 90.0;
        let lon_ok = value >= -180.0 && value <= 180.0;
        assert_eq!(packet.lat, lat_ok.then_some(bits), "latitude {}", value);
        assert_eq!(packet.lon, lon_ok.then_some(bits), "longitude {}", value);
        assert_eq!(invalid, usize::from(!lat_ok) + usize::from(!lon_ok));
    };
    for value in [
        0.0_f32,
        -0.0,
        90.0,
        -90.0,
        90.00001,
        -90.00001,
        180.0,
        -180.0,
        180.00002,
        -180.00002,
        89.99999,
        179.99998,
        f32::MIN_POSITIVE,
        f32::MAX,
        f32::MIN,
        f32::INFINITY,
        f32::NEG_INFINITY,
        f32::NAN,
        -f32::NAN,
        1.0e-40,
    ] {
        check(value.to_bits());
    }
    for bits in (0..=u32::MAX).step_by(65_521) {
        check(bits);
    }
    for delta in 0..64 {
        for limit in [90.0_f32, 180.0] {
            check(limit.to_bits() - 32 + delta);
            check((-limit).to_bits() - 32 + delta);
        }
    }
}

#[test]
fn a_fix_is_read_by_its_bits_in_order() {
    assert_eq!(Fix::from_quality(0x00), Some(Fix::No));
    assert_eq!(Fix::from_quality(0x02), Some(Fix::GpsFix));
    assert_eq!(Fix::from_quality(0x04), Some(Fix::DGpsFix));
    assert_eq!(Fix::from_quality(0x40), Some(Fix::DeadReckoning));
    assert_eq!(Fix::from_quality(0x06), Some(Fix::DGpsFix));
    assert_eq!(Fix::from_quality(0x46), Some(Fix::DGpsFix));
    assert_eq!(Fix::from_quality(0x42), Some(Fix::GpsFix));
    assert_eq!(Fix::from_quality(0x41), Some(Fix::DeadReckoning));
    assert_eq!(Fix::from_quality(0x01), None);
    assert_eq!(Fix::from_quality(0x80), None);
    assert_eq!(Fix::from_quality(0xB9), None);
    for quality in 0..=u8::MAX {
        let expected = if quality & 0x04 != 0 {
            Some(Fix::DGpsFix)
        } else if quality & 0x02 != 0 {
            Some(Fix::GpsFix)
        } else if quality & 0x40 != 0 {
            Some(Fix::DeadReckoning)
        } else if quality == 0 {
            Some(Fix::No)
        } else {
            None
        };
        assert_eq!(Fix::from_quality(quality), expected);
    }
}

#[test]
fn fields_that_are_not_valid_are_left_out_and_counted() {
    let packet = full_packet(77, 0x01, 90.5, 180.5, 1, 2, 3, 4, 5);
    let image = sector(ALL_FLAGS, &[0x7F], &packet);
    let mut parser = Parser::new();
    parser.parse(&image);
    assert_eq!(parser.stats.packets_parsed, 1);
    assert_eq!(parser.stats.invalid_fields, 3);
    assert_eq!(
        parser.packets,
        vec![Packet {
            time: UtcDateTime::from_unix(77),
            fix: None,
            lat: None,
            lon: None,
            height: Some(1),
            speed: Some(2),
            heading: Some(3),
            hdop: Some(4),
            num_sat: Some(5),
        }]
    );
}

#[test]
fn fields_stand_where_the_fields_before_them_end() {
    let content = ContentFlags::from_bits_truncate(
        ContentFlags::VALID | ContentFlags::HEIGHT | ContentFlags::HDOP | ContentFlags::NUM_SAT,
    );
    let (packet, invalid) = read_fields(content, &[0x02, 0xFE, 0xFF, 0x2C, 0x01, 0x0B]);
    assert_eq!(invalid, 0);
    assert_eq!(
        packet,
        Packet {
            fix: Some(Fix::GpsFix),
            height: Some(-2),
            hdop: Some(300),
            num_sat: Some(11),
            ..Packet::default()
        }
    );
    let content = ContentFlags::from_bits_truncate(ContentFlags::SPEED | ContentFlags::TRK);
    let (packet, _) = read_fields(content, &[0x01, 0x00, 0x02, 0x00]);
    assert_eq!(packet.speed, Some(1));
    assert_eq!(packet.heading, Some(2));
    let (packet, invalid) = read_fields(ContentFlags::from_bits_truncate(0), &[]);
    assert_eq!(packet, Packet::default());
    assert_eq!(invalid, 0);
}

#[test]
fn a_packet_is_read_within_its_sector_only() {
    let packet = full_packet(1, 0x04, 1.0, 2.0, 3, 4, 5, 6, 7);
    let image = sector(ALL_FLAGS, &[0x7F], &packet);
    let mut parser = Parser::new();
    parser.active_sector = SectorHeader::parse(&image[..64]);
    parser.parse_packet(&packet);
    assert_eq!(parser.stats.packets_parsed, 1);
    assert_eq!(parser.packets[0].fix, Some(Fix::DGpsFix));
    let mut damaged = packet.clone();
    damaged[22] ^= 0xFF;
    parser.parse_packet(&damaged);
    assert_eq!(parser.stats.packets_parsed, 1);
    assert_eq!(parser.stats.invalid_packets, 1);
    assert_eq!(parser.packets.len(), 1);
    parser.on_packet(Packet::default());
    assert_eq!(parser.packets.len(), 2);
}
