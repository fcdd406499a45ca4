use ada_gps::cmd::parse::{bool_field, integer_field, integer_percent_field, parse, Error};
use ada_gps::cmd::serialize::serialize;
use ada_gps::IntegerPercent;

#[test]
fn test_valid() {
    let (actual_name, actual_fields) =
        parse(b"$PMTK314,1,10,1,1,1,5,0,0,0,0,0,0,0,0,0,0,0,0,0*1C\r\n").unwrap();

    let expected_name = b"PMTK314";
    assert_eq!(actual_name, expected_name);

    let expected_fields: Vec<&[u8]> = vec![
        b"1", b"10", b"1", b"1", b"1", b"5", b"0", b"0", b"0", b"0", b"0", b"0", b"0", b"0",
        b"0", b"0", b"0", b"0", b"0",
    ];
    assert_eq!(actual_fields, expected_fields);

    // Test parsing no fields
    let (actual_name, actual_fields) = parse(b"$PMTK183*38\r\n").unwrap();

    let expected_name = b"PMTK183";
    assert_eq!(actual_name, expected_name);

    let expected_fields: Vec<Vec<u8>> = vec![];
    assert_eq!(actual_fields, expected_fields);
}

#[test]
fn test_invalid() {
    assert_eq!(parse(b""), Err(Error::ExpectedPrefix));
    assert_eq!(parse(b"foo"), Err(Error::ExpectedPrefix));

    assert_eq!(parse(b"$"), Err(Error::ExpectedName));
    assert_eq!(parse(b"$*"), Err(Error::ExpectedName));
    assert_eq!(parse(b"$NAME"), Err(Error::ExpectedName));

    assert_eq!(parse(b"$NAME,"), Err(Error::ExpectedField));
    assert_eq!(parse(b"$NAME,\r\n"), Err(Error::ExpectedField));

    assert_eq!(parse(b"$NAME,*"), Err(Error::ExpectedChecksum));
    assert_eq!(parse(b"$NAME,*0"), Err(Error::ExpectedChecksum));

    assert_eq!(parse(b"$NAME,*zz"), Err(Error::ChecksumParse));

    assert_eq!(parse(b"$NAME,*0f"), Err(Error::ExpectedSuffix));
    assert_eq!(parse(b"$NAME,*0f\r"), Err(Error::ExpectedSuffix));

    assert_eq!(parse(b"$NAME,*0f\r\n"), Err(Error::WrongChecksum));
}

#[test]
fn trailing_bytes_and_broken_suffix_are_told_apart() {
    assert_eq!(parse(b"$PMTK183*38\r\nx"), Err(Error::ExpectedEnd));
    assert_eq!(parse(b"$PMTK183*38\rx"), Err(Error::ExpectedSuffix));
    assert_eq!(parse(b"$PMTK183*38x\n"), Err(Error::ExpectedSuffix));
    assert_eq!(parse(b"$,1*1D\r\n"), Err(Error::ExpectedName));
}

#[test]
fn a_checksum_with_a_sign_is_no_checksum() {
    // The line is the one byte 0x01, of which the checksum is written "01".
    assert_eq!(parse(b"$\x01*01\r\n"), Ok((vec![0x01], vec![])));
    assert_eq!(parse(b"$\x01*+1\r\n"), Err(Error::ChecksumParse));
    assert_eq!(parse(b"$\x01*-1\r\n"), Err(Error::ChecksumParse));
    assert_eq!(parse(b"$\x01* 1\r\n"), Err(Error::ChecksumParse));
    assert_eq!(parse(b"$\x01*1 \r\n"), Err(Error::ChecksumParse));
    assert_eq!(parse(b"$NAME,*+f"), Err(Error::ChecksumParse));
    // Digits of either case are read.
    assert_eq!(parse(b"$PMTK001,604,3,1*1f\r\n").map(|read| read.0), parse(b"$PMTK001,604,3,1*1F\r\n").map(|read| read.0));
}

#[test]
fn empty_fields_are_kept() {
    let mut out = Vec::new();
    serialize(b"PMTK705", &[b"AXN_1.3", b"2102", b"ABCD", b""], &mut out);
    assert_eq!(out, b"$PMTK705,AXN_1.3,2102,ABCD,*11\r\n");
    let (name, fields) = parse(&out).unwrap();
    assert_eq!(name, b"PMTK705");
    let expected: Vec<&[u8]> = vec![b"AXN_1.3", b"2102", b"ABCD", b""];
    assert_eq!(fields, expected);
}

#[test]
fn serialize_writes_the_frames_of_the_protocol() {
    let mut out = Vec::new();
    serialize(b"PMTK185", &[b"1"], &mut out);
    assert_eq!(out, b"$PMTK185,1*23\r\n");

    let mut out = Vec::new();
    serialize(b"PMTK183", &[], &mut out);
    assert_eq!(out, b"$PMTK183*38\r\n");

    let mut out = Vec::new();
    serialize(b"PMTK187", &[b"10", b"5"], &mut out);
    assert_eq!(out, b"$PMTK187,10,5*08\r\n");
}

#[test]
fn serialize_appends_to_what_is_there() {
    let mut out = b"$PMTK183*38\r\n".to_vec();
    serialize(b"PMTK184", &[b"1"], &mut out);
    assert_eq!(out, b"$PMTK183*38\r\n$PMTK184,1*22\r\n");
}

#[test]
fn what_is_written_reads_back() {
    let names: [&[u8]; 3] = [b"PMTK001", b"X", b"PMTKLOX"];
    let field_sets: [Vec<&[u8]>; 4] = [
        vec![],
        vec![b""],
        vec![b"0", b"", b"FFFFFFFF"],
        vec![b"a b", b"\r", b"$", b"+-."],
    ];
    for name in names {
        for fields in &field_sets {
            let mut out = Vec::new();
            serialize(name, fields, &mut out);
            let (read_name, read_fields) = parse(&out).unwrap();
            assert_eq!(read_name, name);
            assert_eq!(&read_fields, fields);
        }
    }
}

#[test]
fn integer_fields_are_decimal_numbers() {
    assert_eq!(integer_field(b"3769"), Ok(3769));
    assert_eq!(integer_field(b"0"), Ok(0));
    assert_eq!(integer_field(b"4294967295"), Ok(u32::MAX));
    assert_eq!(integer_field(b""), Err(Error::ParseField));
    assert_eq!(integer_field(b"12a"), Err(Error::ParseField));
    assert_eq!(integer_field(b"-1"), Err(Error::ParseField));
    assert_eq!(integer_field(b"4294967296"), Err(Error::ParseField));
}

#[test]
fn percent_fields_stop_at_one_hundred() {
    assert_eq!(integer_percent_field(b"46"), Ok(IntegerPercent::new(46)));
    assert_eq!(integer_percent_field(b"0"), Ok(IntegerPercent::zero()));
    assert_eq!(integer_percent_field(b"100"), Ok(IntegerPercent::new(100)));
    assert_eq!(integer_percent_field(b"101"), Err(Error::ParseField));
    assert_eq!(integer_percent_field(b"255"), Err(Error::ParseField));
    assert_eq!(integer_percent_field(b"x"), Err(Error::ParseField));
}

#[test]
fn bool_fields_take_the_two_texts_given() {
    assert_eq!(bool_field(b"0", b"0", b"1"), Ok(true));
    assert_eq!(bool_field(b"1", b"0", b"1"), Ok(false));
    assert_eq!(bool_field(b"2", b"0", b"1"), Err(Error::ParseField));
    assert_eq!(bool_field(b"", b"0", b"1"), Err(Error::ParseField));
    assert_eq!(bool_field(b"01", b"0", b"1"), Err(Error::ParseField));
}
