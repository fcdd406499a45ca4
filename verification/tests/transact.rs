use ada_gps::cmd::parse::{parse, Error as ParseError};
use ada_gps::pipeline::{FrameReader, FrameWriter, ReadPoll, WriteStep, WriteWait};
use ada_gps::transact::{
    frame_for, logger_status_from, logger_status_from_parts, mtk_name, read_ack, read_reply,
    u32_to_base10_ascii, Retries, Verdict,
};
use ada_gps::{Error, IntegerPercent, LoggerStatus};

/// Takes the bytes of the line as the reader of a driver would, and hands
/// back the frame they close.
fn read_cmd_raw(line: &[u8]) -> Vec<u8> {
    let mut reader = FrameReader::new();
    for (i, &byte) in line.iter().enumerate() {
        assert_eq!(reader.poll(), ReadPoll::Read);
        if reader.accept(byte) {
            assert_eq!(i + 1, line.len());
            return reader.cmd;
        }
    }
    panic!("the line closes no frame");
}

/// Offers the bytes of a frame to a transport that always takes them.
fn write_cmd_raw(name: &[u8], fields: &[Vec<u8>]) -> Vec<u8> {
    let mut writer = FrameWriter::new(frame_for(name, fields));
    let mut line = Vec::new();
    loop {
        match writer.next() {
            WriteStep::Write(byte) => {
                line.push(byte);
                writer.written();
            }
            WriteStep::Done => return line,
        }
    }
}

#[test]
fn test_read_pmtk_ack_raw_when_not_ack() {
    let frame = read_cmd_raw(b"$PMTK002*30\r\n");

    let actual = read_ack::<u8>(&frame, b"604");
    assert_eq!(actual, Err(Error::Protocol));
}

#[test]
fn test_read_pmtk_ack_raw_when_wrong_fields() {
    let frame = read_cmd_raw(b"$PMTK001,600*29\r\n");

    let actual = read_ack::<u8>(&frame, b"604");
    assert_eq!(actual, Err(Error::Protocol));
}

#[test]
fn test_read_pmtk_ack_raw_when_for_incorrect() {
    let frame = read_cmd_raw(b"$PMTK001,600,3*36\r\n");

    let actual = read_ack::<u8>(&frame, b"604");
    assert_eq!(actual, Err(Error::Protocol));
}

#[test]
fn test_read_pmtk_ack_raw_when_gps_says_invalid() {
    let frame = read_cmd_raw(b"$PMTK001,600,0*35\r\n");

    let actual = read_ack::<u8>(&frame, b"600");
    assert_eq!(actual, Err(Error::GpsSaysInvalidCommand));
}

#[test]
fn test_read_pmtk_ack_raw_when_gps_says_unsupported() {
    let frame = read_cmd_raw(b"$PMTK001,600,1*34\r\n");

    let actual = read_ack::<u8>(&frame, b"600");
    assert_eq!(actual, Err(Error::GpsSaysUnsupportedCommand));
}

#[test]
fn test_read_pmtk_ack_raw_when_gps_says_failed() {
    let frame = read_cmd_raw(b"$PMTK001,600,2*37\r\n");

    let actual = read_ack::<u8>(&frame, b"600");
    assert_eq!(actual, Err(Error::GpsSaysActionFailed));
}

#[test]
fn test_read_pmtk_ack_raw_for_correct() {
    let frame = read_cmd_raw(b"$PMTK001,604,3*32\r\n");

    read_ack::<u8>(&frame, b"604").unwrap();
}

#[test]
fn test_write_cmd_raw() {
    let fields: Vec<Vec<u8>> = vec![b"10".to_vec(), b"5".to_vec()];
    let line = write_cmd_raw(b"PMTK187", &fields);

    assert_eq!(line, b"$PMTK187,10,5*08\r\n");
}

#[test]
fn test_read_cmd_raw() {
    let frame = read_cmd_raw(b"$PMTK187,10,5*08\r\n");

    let (actual_name, actual_fields) = parse(&frame).unwrap();
    let expected_name = b"PMTK187";
    let expected_fields: Vec<&[u8]> = vec![b"10", b"5"];
    assert_eq!(actual_name, expected_name);
    assert_eq!(actual_fields, expected_fields);
}

#[test]
fn an_ack_has_exactly_two_fields_and_a_status_of_one_byte() {
    let ack = |fields: &[&[u8]]| {
        let fields: Vec<Vec<u8>> = fields.iter().map(|field| field.to_vec()).collect();
        frame_for(b"PMTK001", &fields)
    };
    assert_eq!(read_ack::<u8>(&ack(&[b"604", b"3"]), b"604"), Ok(()));
    assert_eq!(
        read_ack::<u8>(&ack(&[b"604", b"3", b"1"]), b"604"),
        Err(Error::Protocol)
    );
    assert_eq!(
        read_ack::<u8>(&ack(&[b"604", b"33"]), b"604"),
        Err(Error::Protocol)
    );
    assert_eq!(
        read_ack::<u8>(&ack(&[b"604", b""]), b"604"),
        Err(Error::Protocol)
    );
    assert_eq!(
        read_ack::<u8>(&ack(&[b"604", b"4"]), b"604"),
        Err(Error::Protocol)
    );
    assert_eq!(
        read_ack::<u8>(&ack(&[b"6040", b"3"]), b"604"),
        Err(Error::Protocol)
    );
    assert_eq!(
        read_ack::<u8>(b"$PMTK001,604,3*32\r", b"604"),
        Err(Error::Parse(ParseError::ExpectedSuffix))
    );
    assert_eq!(
        read_ack::<u8>(b"$PMTK001,604,3*33\r\n", b"604"),
        Err(Error::Parse(ParseError::WrongChecksum))
    );
}

#[test]
fn a_reply_is_told_by_its_name_and_the_number_of_its_fields() {
    let frame = b"$PMTK705,AXN_1.3,2102,ABCD,*11\r\n";
    let fields = read_reply::<u8>(frame, b"PMTK705", 2).unwrap();
    assert_eq!(fields.len(), 4);
    assert_eq!(fields[0], b"AXN_1.3");
    assert_eq!(fields[3], b"");
    assert!(read_reply::<u8>(frame, b"PMTK705", 4).is_ok());
    assert_eq!(
        read_reply::<u8>(frame, b"PMTK705", 5),
        Err(Error::Protocol)
    );
    assert_eq!(
        read_reply::<u8>(frame, b"PMTK70", 2),
        Err(Error::Protocol)
    );
    assert_eq!(
        read_reply::<u8>(frame, b"PMTK7055", 2),
        Err(Error::Protocol)
    );
    assert_eq!(
        read_reply::<u8>(b"foo\r\n", b"PMTK705", 2),
        Err(Error::Parse(ParseError::ExpectedPrefix))
    );
    assert_eq!(read_reply::<u8>(b"$PMTK183*38\r\n", b"PMTK183", 0), Ok(vec![]));
}

#[test]
fn names_and_numbers_are_written_as_the_protocol_has_them() {
    assert_eq!(mtk_name(b"314"), b"PMTK314");
    assert_eq!(mtk_name(b"LOG"), b"PMTKLOG");
    assert_eq!(mtk_name(b""), b"PMTK");
    assert_eq!(u32_to_base10_ascii(0), b"0");
    assert_eq!(u32_to_base10_ascii(9), b"9");
    assert_eq!(u32_to_base10_ascii(10), b"10");
    assert_eq!(u32_to_base10_ascii(1800), b"1800");
    assert_eq!(u32_to_base10_ascii(u32::MAX), b"4294967295");
    for val in (0..=u32::MAX).step_by(9_973) {
        assert_eq!(u32_to_base10_ascii(val), format!("{}", val).into_bytes());
    }
}

#[test]
fn the_status_is_read_from_four_fields() {
    let fields: Vec<Vec<u8>> = [
        &b"456"[..],
        b"0",
        b"11",
        b"31",
        b"2",
        b"0",
        b"0",
        b"0",
        b"3769",
        b"46",
        b"more",
    ]
    .iter()
    .map(|field| field.to_vec())
    .collect();
    assert_eq!(
        logger_status_from(&fields),
        Ok(LoggerStatus {
            interval: 2,
            is_on: true,
            record_count: 3769,
            percent_full: IntegerPercent::new(46),
        })
    );

    let ok = LoggerStatus {
        interval: 1,
        is_on: false,
        record_count: 2,
        percent_full: IntegerPercent::new(3),
    };
    assert_eq!(
        logger_status_from_parts(Ok(1), Ok(false), Ok(2), Ok(IntegerPercent::new(3))),
        Ok(ok)
    );
    let bad = Err(ParseError::ParseField);
    assert_eq!(
        logger_status_from_parts(bad, Ok(false), Ok(2), Ok(IntegerPercent::new(3))),
        Err(ParseError::ParseField)
    );
    assert_eq!(
        logger_status_from_parts(Ok(1), Err(ParseError::ParseField), Ok(2), Ok(IntegerPercent::new(3))),
        Err(ParseError::ParseField)
    );
    assert_eq!(
        logger_status_from_parts(Ok(1), Ok(false), bad, Ok(IntegerPercent::new(3))),
        Err(ParseError::ParseField)
    );
    assert_eq!(
        logger_status_from_parts(Ok(1), Ok(false), Ok(2), Err(ParseError::ParseField)),
        Err(ParseError::ParseField)
    );
}

#[test]
fn retries_allow_one_try_more_than_their_limit() {
    for max_tries in [1_usize, 5, 20] {
        let mut retries = Retries::new(max_tries);
        assert_eq!(retries.tries, 0);
        for attempt in 1..=max_tries {
            retries.begin();
            assert_eq!(retries.tries, attempt);
            assert_eq!(retries.judge(&Error::<u8>::Protocol), Verdict::Again);
            assert_eq!(retries.judge(&Error::<u8>::ReadTimeout), Verdict::Again);
            assert_eq!(retries.judge(&Error::<u8>::WriteTimeout), Verdict::Again);
            assert_eq!(
                retries.judge(&Error::<u8>::Parse(ParseError::WrongChecksum)),
                Verdict::Again
            );
            assert_eq!(retries.judge(&Error::<u8>::BootFailed), Verdict::Again);
            assert_eq!(
                retries.judge(&Error::<u8>::GpsSaysInvalidCommand),
                Verdict::GiveUp
            );
            assert_eq!(
                retries.judge(&Error::<u8>::GpsSaysUnsupportedCommand),
                Verdict::GiveUp
            );
            assert_eq!(
                retries.judge(&Error::<u8>::GpsSaysActionFailed),
                Verdict::GiveUp
            );
            assert_eq!(retries.judge(&Error::Transmit(3_u8)), Verdict::GiveUp);
        }
        retries.begin();
        assert_eq!(retries.tries, max_tries + 1);
        assert_eq!(retries.judge(&Error::<u8>::Protocol), Verdict::GiveUp);
    }
}

#[test]
fn errors_convert_from_what_went_wrong_below() {
    let err: Error<u8> = ParseError::WrongChecksum.into();
    assert_eq!(err, Error::Parse(ParseError::WrongChecksum));
    let err: Error<u8> = ada_gps::ParseLoggedPointError::HexDecode.into();
    assert_eq!(
        err,
        Error::ParseLoggedPoint(ada_gps::ParseLoggedPointError::HexDecode)
    );
    assert!(Error::<u8>::Protocol.is_retryable());
    assert!(!Error::Transmit(1_u8).is_retryable());
}

#[test]
fn a_reader_resyncs_on_every_dollar() {
    let frame = b"$PMTK001,604,3*32\r\n";
    let prefixes: [&[u8]; 8] = [
        b"",
        b"foo",
        b"\r",
        b"\n\n\r",
        b"$PMTK001,6",
        b"$GPGGA,1,2,3*",
        b"$$$",
        b"\r\r$\r",
    ];
    for prefix in prefixes {
        let mut reader = FrameReader::new();
        for &byte in prefix {
            assert!(!reader.accept(byte));
        }
        for (i, &byte) in frame.iter().enumerate() {
            assert_eq!(reader.accept(byte), i + 1 == frame.len());
        }
        assert_eq!(reader.cmd, frame);
        assert_eq!(parse(&reader.cmd).unwrap().0, b"PMTK001");
    }
}

#[test]
fn a_reader_closes_on_the_first_terminator() {
    let mut reader = FrameReader::new();
    let mut closed_at = None;
    for (i, &byte) in b"foo\r\n$PMTK183*38\r\n".iter().enumerate() {
        if reader.accept(byte) {
            closed_at = Some(i);
            break;
        }
    }
    assert_eq!(closed_at, Some(4));
    assert_eq!(reader.cmd, b"foo\r\n");
    assert_eq!(parse(&reader.cmd), Err(ParseError::ExpectedPrefix));

    // A line feed closes only directly behind a carriage return.
    let mut reader = FrameReader::new();
    for &byte in b"a\rb\n\n\r$\n" {
        assert!(!reader.accept(byte));
    }
    assert_eq!(reader.cmd, b"$\n");
}

#[test]
fn a_reader_takes_a_grant_up_to_the_end_of_a_frame() {
    let mut reader = FrameReader::new();
    assert_eq!(reader.feed(b""), (0, false));
    assert_eq!(reader.feed(b"noise$PMTK0"), (11, false));
    assert_eq!(reader.feed(b"$PMTK183*38\r"), (12, false));
    assert_eq!(reader.feed(b"\n$PMTK001,183,3*3A\r\n"), (1, true));
    assert_eq!(reader.cmd, b"$PMTK183*38\r\n");

    let mut reader = FrameReader::new();
    assert_eq!(reader.feed(b"$PMTK001,183,3*3A\r\n$PMTK"), (19, true));
    assert_eq!(reader.cmd, b"$PMTK001,183,3*3A\r\n");

    let mut reader = FrameReader::new();
    assert_eq!(reader.feed(b"\n\r\r\n\n"), (4, true));
    assert_eq!(reader.cmd, b"\n\r\r\n");
}

#[test]
fn a_reader_times_out_after_half_a_second_of_sleep() {
    let mut reader = FrameReader::new();
    let mut slept: u32 = 0;
    while reader.poll() == ReadPoll::Read {
        reader.waited();
        slept += 1;
    }
    assert_eq!(slept, 500_001);
    assert_eq!(reader.poll(), ReadPoll::TimedOut);
    assert!(reader.cmd.is_empty());
}

#[test]
fn a_writer_times_out_after_fifty_milliseconds_of_sleep() {
    let mut writer = FrameWriter::new(b"$PMTK183*38\r\n".to_vec());
    assert_eq!(writer.next(), WriteStep::Write(b'$'));
    writer.written();
    assert_eq!(writer.next(), WriteStep::Write(b'P'));
    let mut slept: u32 = 0;
    while writer.would_block() == WriteWait::Sleep {
        slept += 1;
        assert_eq!(writer.next(), WriteStep::Write(b'P'));
    }
    assert_eq!(slept, 50_001);
    assert_eq!(writer.sent, 1);

    // The sleep of a frame is counted over all its bytes.
    let mut writer = FrameWriter::new(b"ab".to_vec());
    for _ in 0..30_000 {
        assert_eq!(writer.would_block(), WriteWait::Sleep);
    }
    writer.written();
    assert_eq!(writer.next(), WriteStep::Write(b'b'));
    for _ in 0..20_001 {
        assert_eq!(writer.would_block(), WriteWait::Sleep);
    }
    assert_eq!(writer.would_block(), WriteWait::TimedOut);
    writer.written();
    assert_eq!(writer.next(), WriteStep::Done);
    writer.written();
    assert_eq!(writer.sent, 2);
}
