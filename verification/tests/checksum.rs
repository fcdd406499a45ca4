use ada_gps::cmd::parse::Error as ParseError;
use ada_gps::cmd::{is_hex_digit, Checksum, HEXADECIMAL_FORMAT};

#[test]
fn test_parse_checksum() {
    let actual = Checksum::parse(b"38").unwrap();
    assert_eq!(actual, Checksum::new(56));
}

#[test]
fn test_checksum_to_ascii() {
    let actual = Checksum::new(56).to_ascii();
    assert_eq!(&actual, b"38");

    // check leading zero produced
    let actual = Checksum::new(15).to_ascii();
    assert_eq!(&actual, b"0F");
}

#[test]
fn test_compute_checksum_for_line() {
    let actual = Checksum::compute_for(b"PMTK314,1,1,1,1,1,5,0,0,0,0,0,0,0,0,0,0,0,0,0");
    assert_eq!(actual, Checksum::parse(b"2C").unwrap());

    // Test something that requires zero-padding
    let actual = Checksum::compute_for(b"PMTK527,0.20");
    assert_eq!(actual, Checksum::parse(b"02").unwrap());
}

#[test]
fn hexadecimal_format_is_the_one_lexical_builds() {
    assert_eq!(
        HEXADECIMAL_FORMAT,
        lexical_core::NumberFormatBuilder::hexadecimal()
    );
}

#[test]
fn checksum_of_nothing_is_zero() {
    assert_eq!(Checksum::compute_for(b"").as_u8(), 0);
}

#[test]
fn every_checksum_reads_back_from_its_digits() {
    for val in 0..=255_u8 {
        let ascii = Checksum::new(val).to_ascii();
        for digit in ascii {
            assert!(digit.is_ascii_digit() || (b'A'..=b'F').contains(&digit));
        }
        assert_eq!(Checksum::parse(&ascii).unwrap().as_u8(), val);
    }
}

#[test]
fn checksum_digits_of_either_case_are_read_and_nothing_else() {
    assert_eq!(Checksum::parse(b"0f").unwrap().as_u8(), 15);
    assert_eq!(Checksum::parse(b"aB").unwrap().as_u8(), 0xAB);
    assert_eq!(Checksum::parse(b"00").unwrap().as_u8(), 0);
    assert_eq!(Checksum::parse(b"07").unwrap().as_u8(), 7);
    assert_eq!(Checksum::parse(b"+7"), Err(ParseError::ChecksumParse));
    assert_eq!(Checksum::parse(b"+0"), Err(ParseError::ChecksumParse));
    assert!(Checksum::parse(b"zz").is_err());
    assert!(Checksum::parse(b"-1").is_err());
    assert!(Checksum::parse(b"1+").is_err());
    assert!(Checksum::parse(b"g0").is_err());
    assert!(Checksum::parse(b" 1").is_err());
}

#[test]
fn reading_two_bytes_as_a_checksum_matches_the_digits_for_every_pair() {
    fn digit(c: u8) -> Option<u8> {
        match c {
            b'0'..=b'9' => Some(c - b'0'),
            b'A'..=b'F' => Some(c - b'A' + 10),
            b'a'..=b'f' => Some(c - b'a' + 10),
            _ => None,
        }
    }
    for hi in 0..=255_u8 {
        for lo in 0..=255_u8 {
            let expected = match (digit(hi), digit(lo)) {
                (Some(h), Some(l)) => Some(16 * h + l),
                _ => None,
            };
            let actual = Checksum::parse(&[hi, lo]).ok().map(|c| c.as_u8());
            assert_eq!(actual, expected, "for {:?}", [hi, lo]);
        }
    }
}

#[test]
fn hexadecimal_digits_are_told_from_other_bytes() {
    for byte in 0..=u8::MAX {
        assert_eq!(is_hex_digit(byte), byte.is_ascii_hexdigit());
    }
}
