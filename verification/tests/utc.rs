use ada_gps::UtcDateTime;

#[test]
fn a_moment_is_read_from_unix_seconds() {
    assert_eq!(
        UtcDateTime::from_unix(0),
        Some(UtcDateTime {
            year: 1970,
            month: 1,
            day: 1,
            hour: 0,
            minute: 0,
            second: 0,
            microsecond: 0,
        })
    );
    assert_eq!(
        UtcDateTime::from_unix(1_546_300_800 + 86_399),
        Some(UtcDateTime {
            year: 2019,
            month: 1,
            day: 1,
            hour: 23,
            minute: 59,
            second: 59,
            microsecond: 0,
        })
    );
    assert_eq!(
        UtcDateTime::from_unix(-1),
        Some(UtcDateTime {
            year: 1969,
            month: 12,
            day: 31,
            hour: 23,
            minute: 59,
            second: 59,
            microsecond: 0,
        })
    );
    let last = UtcDateTime::from_unix(u32::MAX as i64).unwrap();
    assert_eq!((last.year, last.month, last.day), (2106, 2, 7));
    assert_eq!((last.year(), last.month(), last.day()), (2106, 2, 7));
    assert_eq!((last.hour(), last.minute(), last.second()), (6, 28, 15));
    assert_eq!(last.microsecond(), 0);
}

#[test]
fn seconds_that_the_calendar_does_not_reach_give_no_moment() {
    assert_eq!(UtcDateTime::from_unix(i64::MAX), None);
    assert_eq!(UtcDateTime::from_unix(i64::MIN), None);
    assert_eq!(UtcDateTime::from_unix(253_402_300_800), None);
    assert!(UtcDateTime::from_unix(253_402_300_799).is_some());
    assert!(UtcDateTime::from_unix(-377_705_116_800).is_some());
    assert_eq!(UtcDateTime::from_unix(-377_705_116_801), None);
}

#[test]
fn moments_are_ordered_by_time() {
    let mut before = UtcDateTime::from_unix(-1_000_000_000).unwrap();
    for seconds in (-999_000_000..4_000_000_000_i64).step_by(86_399 * 37) {
        let moment = UtcDateTime::from_unix(seconds).unwrap();
        assert!(before < moment);
        before = moment;
    }
}

#[test]
fn a_moment_is_written_in_its_canonical_form() {
    assert_eq!(
        UtcDateTime::from_unix(0).unwrap().to_string(),
        "1970-01-01 00:00:00.0 UTC"
    );
    assert_eq!(
        UtcDateTime::from_unix(1_546_300_800 + 3_661).unwrap().to_string(),
        "2019-01-01 01:01:01.0 UTC"
    );
    assert_eq!(
        UtcDateTime::from_unix(253_402_300_799).unwrap().to_ascii(),
        b"9999-12-31 23:59:59.0 UTC"
    );
    let early = UtcDateTime {
        year: 33,
        month: 4,
        day: 3,
        hour: 15,
        minute: 0,
        second: 7,
        microsecond: 120_034,
    };
    assert_eq!(early.to_string(), "0033-04-03 15:00:07.120034 UTC");
    let written = |year: i32| {
        UtcDateTime { year, ..early }.to_string()
    };
    for year in [
        -9999, -1000, -999, -100, -99, -10, -9, -1, 0, 1, 9, 10, 99, 100, 999, 1000, 9999, 10_000,
        i32::MAX, i32::MIN,
    ] {
        assert_eq!(
            written(year),
            format!("{:04}-04-03 15:00:07.120034 UTC", year)
        );
    }
    for seconds in (-70_000_000_000..70_000_000_000_i64).step_by(1_234_567_891) {
        let moment = UtcDateTime::from_unix(seconds).unwrap();
        let at = time::OffsetDateTime::from_unix_timestamp(seconds).unwrap();
        let expected = format!(
            "{:04}-{:02}-{:02} {:02}:{:02}:{:02}.{} UTC",
            at.year(),
            u8::from(at.month()),
            at.day(),
            at.hour(),
            at.minute(),
            at.second(),
            at.microsecond()
        );
        assert_eq!(moment.to_string(), expected);
        assert_eq!(moment.to_ascii(), expected.into_bytes());
    }
}
