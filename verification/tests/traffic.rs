use ada_gps::cmd::check_nmea_checksum;
use ada_gps::cmd::serialize::serialize;
use ada_gps::locus::traffic::{has_prefix, LocusBin, TrafficError};

/// A frame as a record of traffic holds it: without its terminator.
fn line(name: &[u8], fields: &[&[u8]]) -> Vec<u8> {
    let mut out = Vec::new();
    serialize(name, fields, &mut out);
    out.truncate(out.len() - 2);
    out
}

#[test]
fn a_line_is_checked_against_the_checksum_it_ends_in() {
    assert!(check_nmea_checksum(b"$PMTK183*38"));
    assert!(check_nmea_checksum(b"$PMTK314,1,1,1,1,1,5,0,0,0,0,0,0,0,0,0,0,0,0,0*2C"));
    assert!(check_nmea_checksum(b"$PMTK527,0.20*02"));
    assert!(check_nmea_checksum(b"$*00"));
    assert!(!check_nmea_checksum(b"$PMTK183*39"));
    let upper = line(b"PMTK99", &[b"A"]);
    assert!(upper.ends_with(b"*6F"));
    assert!(check_nmea_checksum(&upper));
    let mut lower = upper.clone();
    lower.pop();
    lower.push(b'f');
    assert!(!check_nmea_checksum(&lower));
    assert!(!check_nmea_checksum(b"$PMTK183*38\r\n"));
    assert!(!check_nmea_checksum(b""));
    assert!(!check_nmea_checksum(b"*00"));
    assert!(!check_nmea_checksum(b"$38"));
}

#[test]
fn prefixes_are_told() {
    assert!(has_prefix(b"$PMTKLOX,0,2*1F", b"$PMTKLOX,0"));
    assert!(has_prefix(b"abc", b"abc"));
    assert!(has_prefix(b"abc", b""));
    assert!(!has_prefix(b"ab", b"abc"));
    assert!(!has_prefix(b"abd", b"abc"));
    assert!(!has_prefix(b"xbc", b"abc"));
}

#[test]
fn the_log_is_what_the_lines_between_start_and_end_carry() {
    let mut log = LocusBin::new();
    // Before the dump anything goes that carries its checksum.
    assert_eq!(log.take_line(b"$PMTK001,622,3*36"), Ok(()));
    assert_eq!(log.take_line(&line(b"PMTKLOX", &[b"1", b"7", b"FFFF"])), Ok(()));
    assert_eq!(log.take_line(&line(b"PMTKLOX", &[b"2"])), Ok(()));
    assert!(log.bytes.is_empty());
    assert!(!log.seen_start);
    assert!(!log.ended);

    assert_eq!(log.take_line(&line(b"PMTKLOX", &[b"0", b"3"])), Ok(()));
    assert!(log.seen_start);
    assert_eq!(
        log.take_line(&line(b"PMTKLOX", &[b"1", b"0", b"0102ab", b"Cd"])),
        Ok(())
    );
    assert_eq!(log.bytes, [0x01, 0x02, 0xAB, 0xCD]);
    // Fields of odd length are joined before they are read.
    assert_eq!(
        log.take_line(&line(b"PMTKLOX", &[b"1", b"1", b"F", b"0", b"", b"111", b"2"])),
        Ok(())
    );
    assert_eq!(log.bytes, [0x01, 0x02, 0xAB, 0xCD, 0xF0, 0x11, 0x12]);
    assert_eq!(log.take_line(&line(b"PMTKLOX", &[b"1", b"2"])), Ok(()));
    assert_eq!(log.data_line_i, 3);
    assert_eq!(log.bytes.len(), 7);

    assert_eq!(log.take_line(&line(b"PMTKLOX", &[b"2"])), Ok(()));
    assert!(log.ended);
    // Behind the end nothing is looked at.
    assert_eq!(log.take_line(b"garbage"), Ok(()));
    assert_eq!(log.take_line(&line(b"PMTKLOX", &[b"1", b"3", b"00"])), Ok(()));
    assert_eq!(log.bytes.len(), 7);
}

#[test]
fn what_is_wrong_with_a_line_is_told_and_changes_nothing() {
    let mut log = LocusBin::new();
    assert_eq!(log.take_line(b"$PMTK001,622,3*37"), Err(TrafficError::Checksum));
    assert_eq!(log.take_line(b""), Err(TrafficError::Checksum));
    assert_eq!(log.take_line(&line(b"PMTKLOX", &[b"0", b"3"])), Ok(()));
    assert_eq!(log.take_line(&line(b"PMTKLOX", &[b"1", b"0", b"AA"])), Ok(()));

    let cases: [(Vec<u8>, TrafficError); 9] = [
        (b"$PMTKLOX,1,1,BB*00".to_vec(), TrafficError::Checksum),
        (line(b"PMTK001", &[b"622", b"3"]), TrafficError::ExpectedData),
        (line(b"PMTKLOX", &[b"1"]), TrafficError::ExpectedData),
        (line(b"PMTKLOX", &[b"10", b"1", b"BB"]), TrafficError::ExpectedData),
        (line(b"PMTKLOX", &[b"1", b"", b"BB"]), TrafficError::Number),
        (line(b"PMTKLOX", &[b"1", b"x", b"BB"]), TrafficError::Number),
        (line(b"PMTKLOX", &[b"1", b"0", b"BB"]), TrafficError::OutOfOrder),
        (line(b"PMTKLOX", &[b"1", b"1", b"BBB"]), TrafficError::Hex),
        (line(b"PMTKLOX", &[b"1", b"1", b"BB", b"0G"]), TrafficError::Hex),
    ];
    for (text, expected) in cases {
        assert_eq!(log.take_line(&text), Err(expected));
        assert_eq!(log.bytes, [0xAA]);
        assert_eq!(log.data_line_i, 1);
        assert!(log.seen_start);
        assert!(!log.ended);
    }
    assert_eq!(log.take_line(&line(b"PMTKLOX", &[b"1", b"1", b"BB"])), Ok(()));
    assert_eq!(log.bytes, [0xAA, 0xBB]);
}
