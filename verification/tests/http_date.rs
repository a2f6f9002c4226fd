use headers_ext::util::civil::{FIRST_INSTANT, LAST_INSTANT};
use headers_ext::{DateTime, EpochOffset, HttpDate, TryFromValues, Values};
use http::header::HeaderValue;
use std::time::{Duration, SystemTime, UNIX_EPOCH};

fn parse(text: &str) -> Option<i64> {
    HttpDate::parse(text.as_bytes()).map(|date| date.as_unix())
}

fn format(secs: i64) -> String {
    String::from_utf8(HttpDate::from_unix(secs).unwrap().format()).unwrap()
}

// The date of a day counted from 1 January 1970, by the era-based reckoning.
fn era_date(days: i64) -> (i64, u32, u32) {
    let z = days + 719_468;
    let era = z.div_euclid(146_097);
    let doe = z.rem_euclid(146_097);
    let yoe = (doe - doe / 1_460 + doe / 36_524 - doe / 146_096) / 365;
    let doy = doe - (365 * yoe + yoe / 4 - yoe / 100);
    let mp = (5 * doy + 2) / 153;
    let day = (doy - (153 * mp + 2) / 5 + 1) as u32;
    let month = if mp < 10 { mp + 3 } else { mp - 9 } as u32;
    let year = yoe + era * 400 + if month <= 2 { 1 } else { 0 };
    (year, month, day)
}

fn era_text(secs: i64) -> String {
    const DAYS: [&str; 7] = ["Thu", "Fri", "Sat", "Sun", "Mon", "Tue", "Wed"];
    const MONTHS: [&str; 12] =
        ["Jan", "Feb", "Mar", "Apr", "May", "Jun", "Jul", "Aug", "Sep", "Oct", "Nov", "Dec"];
    let days = secs.div_euclid(86_400);
    let rest = secs.rem_euclid(86_400);
    let (year, month, day) = era_date(days);
    format!(
        "{}, {:02} {} {:04} {:02}:{:02}:{:02} GMT",
        DAYS[days.rem_euclid(7) as usize],
        day,
        MONTHS[(month - 1) as usize],
        year,
        rest / 3_600,
        rest / 60 % 60,
        rest % 60
    )
}

#[test]
fn date_parse_fixdate() {
    assert_eq!(parse("Sat, 29 Oct 1994 19:43:31 GMT"), Some(783_459_811));
    assert_eq!(parse("Sun, 06 Nov 1994 08:49:37 GMT"), Some(784_111_777));
    assert_eq!(parse("Thu, 01 Jan 1970 00:00:00 GMT"), Some(0));
    assert_eq!(parse("Thu, 01 Jan 1970 00:00:01 GMT"), Some(1));
    assert_eq!(parse("Wed, 31 Dec 1969 23:59:59 GMT"), Some(-1));
    assert_eq!(parse("Tue, 19 Jan 2038 03:14:08 GMT"), Some(2_147_483_648));
    assert_eq!(parse("Mon, 01 Jan 1601 00:00:00 GMT"), Some(-11_644_473_600));
}

#[test]
fn date_parse_rfc850() {
    assert_eq!(parse("Saturday, 29-Oct-94 19:43:31 GMT"), Some(783_459_811));
    assert_eq!(parse("Sunday, 06-Nov-94 08:49:37 GMT"), Some(784_111_777));
    assert_eq!(parse("Wednesday, 16-Nov-94 08:49:37 GMT"), Some(784_975_777));
    assert_eq!(parse("Monday, 01-Mar-00 00:00:00 GMT"), Some(951_868_800));
    assert_eq!(parse("Tuesday, 29-Feb-00 12:00:00 GMT"), Some(951_825_600));
    assert_eq!(parse("Thursday, 29-Feb-24 23:59:59 GMT"), Some(1_709_251_199));
    assert_eq!(parse("Friday, 31-Dec-99 23:59:59 GMT"), Some(946_684_799));
}

#[test]
fn date_parse_rfc850_two_digit_years() {
    assert_eq!(parse("Thursday, 01-Jan-70 00:00:00 GMT"), Some(0));
    assert_eq!(parse("Friday, 31-Dec-99 23:59:59 GMT"), Some(946_684_799));
    assert_eq!(parse("Saturday, 01-Jan-00 00:00:00 GMT"), Some(946_684_800));
    assert_eq!(parse("Tuesday, 01-Jan-69 00:00:00 GMT"), Some(3_124_224_000));
}

#[test]
fn date_parse_asctime() {
    assert_eq!(parse("Sun Nov  6 08:49:37 1994"), Some(784_111_777));
    assert_eq!(parse("Sun Nov 06 08:49:37 1994"), Some(784_111_777));
    assert_eq!(parse("Wed Nov 16 08:49:37 1994"), Some(784_975_777));
    assert_eq!(parse("Sat Oct 29 19:43:31 1994"), Some(783_459_811));
    assert_eq!(parse("Thu Jan  1 00:00:00 1970"), Some(0));
}

#[test]
fn date_grammars_agree() {
    let long = HttpDate::parse(b"Saturday, 29-Oct-94 19:43:31 GMT").unwrap();
    let fixed = HttpDate::parse(b"Sat, 29 Oct 1994 19:43:31 GMT").unwrap();
    let asctime = HttpDate::parse(b"Sat Oct 29 19:43:31 1994").unwrap();
    assert_eq!(long, fixed);
    assert_eq!(asctime, fixed);
    assert_eq!(long.format(), b"Sat, 29 Oct 1994 19:43:31 GMT");
    assert_eq!(fixed.format(), b"Sat, 29 Oct 1994 19:43:31 GMT");
    assert_eq!(asctime.format(), b"Sat, 29 Oct 1994 19:43:31 GMT");
}

#[test]
fn date_parse_refuses_what_is_no_date() {
    assert_eq!(parse("not a date"), None);
    assert_eq!(parse(""), None);
    assert_eq!(parse("Sat, 29 Oct 1994"), None);
    assert_eq!(parse("783459811"), None);
    assert_eq!(parse("Sat, 29 Oct 1994 19:43:31 GMT "), None);
    assert_eq!(parse(" Sat, 29 Oct 1994 19:43:31 GMT"), None);
    assert_eq!(parse("Sat,29 Oct 1994 19:43:31 GMT"), None);
    assert_eq!(parse("Sat, 29 Oct 1994 19:43:31  GMT"), None);
    assert_eq!(parse("Sat, 29 Oct 1994 19-43-31 GMT"), None);
    assert_eq!(parse("Sat, 29-Oct-1994 19:43:31 GMT"), None);
    assert_eq!(parse("Sat, 9 Oct 1994 19:43:31 GMT"), None);
    assert_eq!(parse("Sat,  9 Oct 1994 19:43:31 GMT"), None);
    assert_eq!(parse("Sat, 29 Oct 94 19:43:31 GMT"), None);
    assert_eq!(parse("Sat, 29 Oct 1994 19:43 GMT"), None);
    assert_eq!(parse("Sat, 2x Oct 1994 19:43:31 GMT"), None);
    assert_eq!(parse("Sat, 29 Oct 19x4 19:43:31 GMT"), None);
    assert_eq!(parse("Sat, 29 Oct 1994 19:4x:31 GMT"), None);
    assert_eq!(parse("Sat, +9 Oct 1994 19:43:31 GMT"), None);
    assert_eq!(parse("Sat, 29 Oct 1994 19:43:31"), None);
    assert_eq!(parse("Saturday, 29 Oct 1994 19:43:31 GMT"), None);
    assert_eq!(parse("Sat, 29-Oct-94 19:43:31 GMT"), None);
    assert_eq!(parse("Saturday, 29-Oct-1994 19:43:31 GMT"), None);
    assert_eq!(parse(", 29-Oct-94 19:43:31 GMT"), None);
    assert_eq!(parse("Sat Oct 29 19:43:31 1994 GMT"), None);
    assert_eq!(parse("Sat Oct 29 19:43:31 94"), None);
    assert_eq!(parse("Sat Oct 9 19:43:31 1994"), None);
    assert_eq!(parse("Sat Oct  x 19:43:31 1994"), None);
    assert_eq!(parse("Sat Oct 9  19:43:31 1994"), None);
    assert_eq!(parse("1994-10-29T19:43:31Z"), None);
}

#[test]
fn date_parse_refuses_unknown_names() {
    assert_eq!(parse("Sat, 29 Foo 1994 19:43:31 GMT"), None);
    assert_eq!(parse("Foo, 29 Oct 1994 19:43:31 GMT"), None);
    assert_eq!(parse("sat, 29 Oct 1994 19:43:31 GMT"), None);
    assert_eq!(parse("SAT, 29 Oct 1994 19:43:31 GMT"), None);
    assert_eq!(parse("Sat, 29 oct 1994 19:43:31 GMT"), None);
    assert_eq!(parse("Sat, 29 OCT 1994 19:43:31 GMT"), None);
    assert_eq!(parse("Sat, 29 Oct 1994 19:43:31 gmt"), None);
    assert_eq!(parse("Satday, 29-Oct-94 19:43:31 GMT"), None);
    assert_eq!(parse("Saturda, 29-Oct-94 19:43:31 GMT"), None);
    assert_eq!(parse("Saturdayy, 29-Oct-94 19:43:31 GMT"), None);
    assert_eq!(parse("saturday, 29-Oct-94 19:43:31 GMT"), None);
    assert_eq!(parse("Sat Okt 29 19:43:31 1994"), None);
    assert_eq!(parse("Sam Oct 29 19:43:31 1994"), None);
}

#[test]
fn date_parse_reads_every_name() {
    let days = ["Sun", "Mon", "Tue", "Wed", "Thu", "Fri", "Sat"];
    let long_days =
        ["Sunday", "Monday", "Tuesday", "Wednesday", "Thursday", "Friday", "Saturday"];
    for day in days {
        assert_eq!(parse(&format!("{}, 29 Oct 1994 19:43:31 GMT", day)), Some(783_459_811));
        assert_eq!(parse(&format!("{} Oct 29 19:43:31 1994", day)), Some(783_459_811));
    }
    for day in long_days {
        assert_eq!(parse(&format!("{}, 29-Oct-94 19:43:31 GMT", day)), Some(783_459_811));
    }
    let months =
        ["Jan", "Feb", "Mar", "Apr", "May", "Jun", "Jul", "Aug", "Sep", "Oct", "Nov", "Dec"];
    let starts: [i64; 12] = [0, 31, 59, 90, 120, 151, 181, 212, 243, 273, 304, 334];
    for (month, start) in months.iter().zip(starts.iter()) {
        let expected = Some(start * 86_400);
        assert_eq!(parse(&format!("Thu, 01 {} 1970 00:00:00 GMT", month)), expected);
        assert_eq!(parse(&format!("Thursday, 01-{}-70 00:00:00 GMT", month)), expected);
        assert_eq!(parse(&format!("Thu {}  1 00:00:00 1970", month)), expected);
    }
}

#[test]
fn date_parse_takes_the_day_name_as_given() {
    // the day name is not held against the date
    assert_eq!(parse("Mon, 29 Oct 1994 19:43:31 GMT"), Some(783_459_811));
    assert_eq!(format(783_459_811), "Sat, 29 Oct 1994 19:43:31 GMT");
}

#[test]
fn date_parse_zones() {
    assert_eq!(parse("Sat, 29 Oct 1994 19:43:31 GMT"), Some(783_459_811));
    assert_eq!(parse("Sat, 29 Oct 1994 19:43:31 UTC"), Some(783_459_811));
    assert_eq!(parse("Saturday, 29-Oct-94 19:43:31 UTC"), Some(783_459_811));
    assert_eq!(parse("Sat, 29 Oct 1994 19:43:31 PST"), None);
    assert_eq!(parse("Sat, 29 Oct 1994 19:43:31 EST"), None);
    assert_eq!(parse("Sat, 29 Oct 1994 19:43:31 CET"), None);
    assert_eq!(parse("Sat, 29 Oct 1994 19:43:31 GMX"), None);
    assert_eq!(parse("Sat, 29 Oct 1994 19:43:31 UTG"), None);
    assert_eq!(parse("Saturday, 29-Oct-94 19:43:31 PDT"), None);
    assert_eq!(parse("Sat, 29 Oct 1994 19:43:31 +00"), None);
}

#[test]
fn date_parse_refuses_fields_out_of_range() {
    assert_eq!(parse("Sat, 00 Oct 1994 19:43:31 GMT"), None);
    assert_eq!(parse("Sat, 32 Oct 1994 19:43:31 GMT"), None);
    assert_eq!(parse("Sat, 31 Nov 1994 19:43:31 GMT"), None);
    assert_eq!(parse("Sat, 30 Nov 1994 19:43:31 GMT"), Some(786_224_611));
    assert_eq!(parse("Sat, 29 Oct 1994 24:00:00 GMT"), None);
    assert_eq!(parse("Sat, 29 Oct 1994 23:60:00 GMT"), None);
    assert_eq!(parse("Sat, 29 Oct 1994 23:59:60 GMT"), None);
    assert_eq!(parse("Sat, 29 Oct 1994 99:99:99 GMT"), None);
    assert_eq!(parse("Sat, 29 Oct 1994 23:59:59 GMT"), Some(783_475_199));
    assert_eq!(parse("Saturday, 32-Oct-94 19:43:31 GMT"), None);
    assert_eq!(parse("Saturday, 29-Oct-94 25:43:31 GMT"), None);
    assert_eq!(parse("Sat Oct 32 19:43:31 1994"), None);
    assert_eq!(parse("Sat Oct  0 19:43:31 1994"), None);
    assert_eq!(parse("Sat Oct 29 19:61:31 1994"), None);
}

#[test]
fn date_parse_leap_days() {
    assert_eq!(parse("Tue, 29 Feb 2000 12:00:00 GMT"), Some(951_825_600));
    assert_eq!(parse("Thu, 29 Feb 2024 23:59:59 GMT"), Some(1_709_251_199));
    assert_eq!(parse("Thu, 29 Feb 1900 00:00:00 GMT"), None);
    assert_eq!(parse("Mon, 29 Feb 2100 00:00:00 GMT"), None);
    assert_eq!(parse("Wed, 29 Feb 2023 00:00:00 GMT"), None);
    assert_eq!(parse("Wed, 30 Feb 2024 00:00:00 GMT"), None);
    assert_eq!(parse("Thu, 01 Mar 1900 00:00:00 GMT"), Some(-2_203_891_200));
    assert_eq!(parse("Mon, 01 Mar 2100 00:00:00 GMT"), Some(4_107_542_400));
    assert_eq!(parse("Tue, 29 Feb 0000 00:00:00 GMT"), Some(FIRST_INSTANT + 59 * 86_400));
}

#[test]
fn date_first_and_last_instant() {
    assert_eq!(FIRST_INSTANT, -62_167_219_200);
    assert_eq!(LAST_INSTANT, 253_402_300_799);
    assert_eq!(parse("Sat, 01 Jan 0000 00:00:00 GMT"), Some(FIRST_INSTANT));
    assert_eq!(parse("Fri, 31 Dec 9999 23:59:59 GMT"), Some(LAST_INSTANT));
    assert_eq!(format(FIRST_INSTANT), "Sat, 01 Jan 0000 00:00:00 GMT");
    assert_eq!(format(LAST_INSTANT), "Fri, 31 Dec 9999 23:59:59 GMT");
    assert_eq!(format(-62_135_596_800), "Mon, 01 Jan 0001 00:00:00 GMT");
}

#[test]
fn date_from_unix_keeps_to_four_digit_years() {
    assert!(HttpDate::from_unix(FIRST_INSTANT).is_some());
    assert!(HttpDate::from_unix(LAST_INSTANT).is_some());
    assert!(HttpDate::from_unix(0).is_some());
    assert_eq!(HttpDate::from_unix(FIRST_INSTANT - 1), None);
    assert_eq!(HttpDate::from_unix(LAST_INSTANT + 1), None);
    assert_eq!(HttpDate::from_unix(i64::MIN), None);
    assert_eq!(HttpDate::from_unix(i64::MAX), None);
    assert_eq!(HttpDate::from_unix(-5).unwrap().as_unix(), -5);
}

#[test]
fn date_format_is_the_fixed_width_form() {
    assert_eq!(format(783_459_811), "Sat, 29 Oct 1994 19:43:31 GMT");
    assert_eq!(format(784_111_777), "Sun, 06 Nov 1994 08:49:37 GMT");
    assert_eq!(format(0), "Thu, 01 Jan 1970 00:00:00 GMT");
    assert_eq!(format(-1), "Wed, 31 Dec 1969 23:59:59 GMT");
    assert_eq!(format(951_825_600), "Tue, 29 Feb 2000 12:00:00 GMT");
    assert_eq!(format(946_684_799), "Fri, 31 Dec 1999 23:59:59 GMT");
    assert_eq!(format(946_684_800), "Sat, 01 Jan 2000 00:00:00 GMT");
    assert_eq!(format(1_483_228_799), "Sat, 31 Dec 2016 23:59:59 GMT");
    assert_eq!(format(2_147_483_648), "Tue, 19 Jan 2038 03:14:08 GMT");
    assert_eq!(format(-12_219_292_800), "Fri, 15 Oct 1582 00:00:00 GMT");
    assert_eq!(format(4_107_542_400), "Mon, 01 Mar 2100 00:00:00 GMT");
    assert_eq!(format(4_107_542_399), "Sun, 28 Feb 2100 23:59:59 GMT");
}

#[test]
fn date_format_agrees_with_the_era_reckoning() {
    let mut secs = FIRST_INSTANT;
    while secs <= LAST_INSTANT {
        assert_eq!(format(secs), era_text(secs));
        secs += 86_400 * 37 + 3_671;
    }
    for year_start in [-62_167_219_200i64, -2_208_988_800, 946_684_800, 4_102_444_800] {
        for day in 0..800 {
            let secs = year_start + day * 86_400 + 86_399;
            assert_eq!(format(secs), era_text(secs));
        }
    }
}

#[test]
fn date_round_trip() {
    let mut secs = FIRST_INSTANT;
    while secs <= LAST_INSTANT {
        let date = HttpDate::from_unix(secs).unwrap();
        let text = date.format();
        assert_eq!(text.len(), 29);
        let back = HttpDate::parse(&text);
        assert_eq!(back, Some(date));
        assert_eq!(back.unwrap().format(), text);
        secs += 86_400 * 101 + 40_271;
    }
    for secs in [FIRST_INSTANT, -1, 0, 1, 59, 60, 86_399, 86_400, LAST_INSTANT] {
        let date = HttpDate::from_unix(secs).unwrap();
        assert_eq!(HttpDate::parse(&date.format()), Some(date));
    }
}

#[test]
fn date_civil_fields() {
    let date = HttpDate::from_unix(783_459_811).unwrap();
    let fields = date.civil();
    assert_eq!(
        fields,
        DateTime { year: 1994, month: 10, day: 29, hour: 19, minute: 43, second: 31 }
    );
    assert!(fields.validate());
    assert_eq!(date.weekday(), 6);
    assert_eq!(HttpDate::from_civil(&fields), Some(date));
    assert_eq!(HttpDate::from_unix(0).unwrap().weekday(), 4);
    assert_eq!(HttpDate::from_unix(FIRST_INSTANT).unwrap().weekday(), 6);
    assert_eq!(HttpDate::from_unix(LAST_INSTANT).unwrap().weekday(), 5);
    assert_eq!(
        HttpDate::from_unix(-1).unwrap().civil(),
        DateTime { year: 1969, month: 12, day: 31, hour: 23, minute: 59, second: 59 }
    );
}

#[test]
fn date_from_civil_refuses_what_names_no_instant() {
    let fields = |year, month, day, hour, minute, second| DateTime {
        year,
        month,
        day,
        hour,
        minute,
        second,
    };
    assert!(HttpDate::from_civil(&fields(2024, 2, 29, 0, 0, 0)).is_some());
    assert_eq!(HttpDate::from_civil(&fields(2023, 2, 29, 0, 0, 0)), None);
    assert_eq!(HttpDate::from_civil(&fields(2024, 0, 1, 0, 0, 0)), None);
    assert_eq!(HttpDate::from_civil(&fields(2024, 13, 1, 0, 0, 0)), None);
    assert_eq!(HttpDate::from_civil(&fields(2024, 1, 0, 0, 0, 0)), None);
    assert_eq!(HttpDate::from_civil(&fields(2024, 4, 31, 0, 0, 0)), None);
    assert_eq!(HttpDate::from_civil(&fields(2024, 1, 1, 24, 0, 0)), None);
    assert_eq!(HttpDate::from_civil(&fields(2024, 1, 1, 0, 60, 0)), None);
    assert_eq!(HttpDate::from_civil(&fields(2024, 1, 1, 0, 0, 60)), None);
    assert_eq!(HttpDate::from_civil(&fields(10_000, 1, 1, 0, 0, 0)), None);
    assert_eq!(HttpDate::from_civil(&fields(u16::MAX, 255, 255, 255, 255, 255)), None);
    assert_eq!(
        HttpDate::from_civil(&fields(9999, 12, 31, 23, 59, 59)).map(|d| d.as_unix()),
        Some(LAST_INSTANT)
    );
    assert_eq!(
        HttpDate::from_civil(&fields(0, 1, 1, 0, 0, 0)).map(|d| d.as_unix()),
        Some(FIRST_INSTANT)
    );
}

#[test]
fn date_from_val_and_to_value() {
    let value = HeaderValue::from_static("Sunday, 06-Nov-94 08:49:37 GMT");
    let date = HttpDate::from_val(&value).unwrap();
    assert_eq!(date.as_unix(), 784_111_777);
    let written = date.to_value();
    assert_eq!(written.as_bytes(), b"Sun, 06 Nov 1994 08:49:37 GMT");
    assert_eq!(written, HeaderValue::from_static("Sun, 06 Nov 1994 08:49:37 GMT"));
    assert_eq!(HttpDate::from_val(&written), Some(date));
    assert_eq!(HttpDate::from_val(&HeaderValue::from_static("not a date")), None);
    assert_eq!(HttpDate::from_val(&HeaderValue::from_bytes(b"Sat, 29 Oct 1994 19:43:31 GM\xd4").unwrap()), None);
    for secs in [FIRST_INSTANT, -1, 0, LAST_INSTANT] {
        let date = HttpDate::from_unix(secs).unwrap();
        assert_eq!(date.to_value().as_bytes(), &date.format()[..]);
    }
}

#[test]
fn date_from_system_time_floors_to_the_second() {
    let date = HttpDate::from(UNIX_EPOCH + Duration::new(783_459_811, 999_999_999));
    assert_eq!(date.as_unix(), 783_459_811);
    assert_eq!(HttpDate::from(UNIX_EPOCH).as_unix(), 0);
    assert_eq!(HttpDate::from(UNIX_EPOCH + Duration::new(0, 1)).as_unix(), 0);
    assert_eq!(HttpDate::from(UNIX_EPOCH - Duration::new(0, 1)).as_unix(), -1);
    assert_eq!(HttpDate::from(UNIX_EPOCH - Duration::new(1, 0)).as_unix(), -1);
    assert_eq!(HttpDate::from(UNIX_EPOCH - Duration::new(1, 500_000_000)).as_unix(), -2);
}

#[test]
fn date_from_system_time_outside_the_calendar() {
    let late = UNIX_EPOCH.checked_add(Duration::from_secs(LAST_INSTANT as u64 + 1));
    if let Some(late) = late {
        assert_eq!(HttpDate::from(late).as_unix(), LAST_INSTANT);
    }
    let early = UNIX_EPOCH.checked_sub(Duration::new((-FIRST_INSTANT) as u64, 1));
    if let Some(early) = early {
        assert_eq!(HttpDate::from(early).as_unix(), FIRST_INSTANT);
    }
}

#[test]
fn date_from_offset() {
    let offset = |before: bool, secs: u64, subsec_nanos: u32| EpochOffset { before, secs, subsec_nanos };
    assert_eq!(HttpDate::from_offset(offset(false, 5, 0)).as_unix(), 5);
    assert_eq!(HttpDate::from_offset(offset(false, 5, 999_999_999)).as_unix(), 5);
    assert_eq!(HttpDate::from_offset(offset(true, 5, 0)).as_unix(), -5);
    assert_eq!(HttpDate::from_offset(offset(true, 5, 1)).as_unix(), -6);
    assert_eq!(HttpDate::from_offset(offset(true, 0, 0)).as_unix(), 0);
    assert_eq!(HttpDate::from_offset(offset(true, 0, 1)).as_unix(), -1);
    assert_eq!(HttpDate::from_offset(offset(false, 5, 3_500_000_000)).as_unix(), 8);
    assert_eq!(HttpDate::from_offset(offset(true, 5, 3_000_000_000)).as_unix(), -8);
    assert_eq!(HttpDate::from_offset(offset(true, 5, 3_000_000_001)).as_unix(), -9);
    assert_eq!(HttpDate::from_offset(offset(false, LAST_INSTANT as u64, 999_999_999)).as_unix(), LAST_INSTANT);
    assert_eq!(HttpDate::from_offset(offset(false, LAST_INSTANT as u64 + 1, 0)).as_unix(), LAST_INSTANT);
    assert_eq!(HttpDate::from_offset(offset(false, u64::MAX, u32::MAX)).as_unix(), LAST_INSTANT);
    assert_eq!(HttpDate::from_offset(offset(true, 62_167_219_200, 0)).as_unix(), FIRST_INSTANT);
    assert_eq!(HttpDate::from_offset(offset(true, 62_167_219_199, 1)).as_unix(), FIRST_INSTANT);
    assert_eq!(HttpDate::from_offset(offset(true, 62_167_219_199, 0)).as_unix(), FIRST_INSTANT + 1);
    assert_eq!(HttpDate::from_offset(offset(true, 62_167_219_200, 1)).as_unix(), FIRST_INSTANT);
    assert_eq!(HttpDate::from_offset(offset(true, u64::MAX, u32::MAX)).as_unix(), FIRST_INSTANT);
}

#[test]
fn date_is_reached_by() {
    let offset = |before: bool, secs: u64, subsec_nanos: u32| EpochOffset { before, secs, subsec_nanos };
    let date = HttpDate::from_unix(100).unwrap();
    assert!(date.is_reached_by(offset(false, 100, 0)));
    assert!(date.is_reached_by(offset(false, 100, 1)));
    assert!(date.is_reached_by(offset(false, 101, 0)));
    assert!(!date.is_reached_by(offset(false, 99, 999_999_999)));
    assert!(date.is_reached_by(offset(false, 99, 1_000_000_000)));
    assert!(!date.is_reached_by(offset(true, 0, 0)));
    assert!(!date.is_reached_by(offset(true, 100, 0)));
    let first = HttpDate::from_unix(FIRST_INSTANT).unwrap();
    assert!(first.is_reached_by(offset(true, 62_167_219_200, 0)));
    assert!(!first.is_reached_by(offset(true, 62_167_219_200, 1)));
    assert!(!first.is_reached_by(offset(true, u64::MAX, 0)));
    let last = HttpDate::from_unix(LAST_INSTANT).unwrap();
    assert!(last.is_reached_by(offset(false, u64::MAX, 0)));
    assert!(!last.is_reached_by(offset(false, LAST_INSTANT as u64 - 1, 999_999_999)));
}

#[test]
fn date_to_system_time() {
    let date = HttpDate::from_unix(783_459_811).unwrap();
    assert_eq!(date.to_system_time(), Some(UNIX_EPOCH + Duration::from_secs(783_459_811)));
    let early = HttpDate::from_unix(-30).unwrap();
    assert_eq!(early.to_system_time(), Some(UNIX_EPOCH - Duration::from_secs(30)));
    assert_eq!(HttpDate::from_unix(0).unwrap().to_system_time(), Some(UNIX_EPOCH));
    let now = SystemTime::now();
    let floored = HttpDate::from(now);
    let back = floored.to_system_time().unwrap();
    assert!(back <= now);
    assert!(now.duration_since(back).unwrap() < Duration::from_secs(1));
    assert_eq!(HttpDate::from(back), floored);
}

#[test]
fn dates_are_ordered_as_their_instants() {
    let early = HttpDate::parse(b"Sat, 29 Oct 1994 19:43:31 GMT").unwrap();
    let late = HttpDate::parse(b"Sunday, 06-Nov-94 08:49:37 GMT").unwrap();
    let same = HttpDate::parse(b"Sat Oct 29 19:43:31 1994").unwrap();
    assert!(early < late);
    assert!(late > early);
    assert!(early <= same);
    assert!(early >= same);
    assert_eq!(early, same);
    assert_ne!(early, late);
    assert_eq!(early.partial_cmp(&late), Some(std::cmp::Ordering::Less));
    assert_eq!(late.partial_cmp(&early), Some(std::cmp::Ordering::Greater));
    assert_eq!(early.partial_cmp(&same), Some(std::cmp::Ordering::Equal));
    assert_eq!(early.cmp(&late), std::cmp::Ordering::Less);
    assert!(HttpDate::from_unix(-1).unwrap() < HttpDate::from_unix(0).unwrap());
}

#[test]
fn date_try_from_values() {
    let values = vec![
        HeaderValue::from_static("Sun Nov  6 08:49:37 1994"),
        HeaderValue::from_static("yesterday"),
    ];
    let mut cursor = Values::new(&values);
    assert_eq!(HttpDate::try_from_values(&mut cursor).map(|d| d.as_unix()), Some(784_111_777));
    assert_eq!(cursor.len(), 1);
    assert_eq!(HttpDate::try_from_values(&mut cursor), None);
    assert!(cursor.is_empty());
    assert_eq!(HttpDate::try_from_values(&mut cursor), None);
}

#[test]
fn date_try_from_no_values() {
    let values: Vec<HeaderValue> = Vec::new();
    let mut cursor = Values::new(&values);
    assert_eq!(HttpDate::try_from_values(&mut cursor), None);
    assert!(cursor.is_empty());
}

#[test]
fn date_to_string() {
    let date = HttpDate::parse(b"Sunday, 06-Nov-94 08:49:37 GMT").unwrap();
    assert_eq!(date.to_string(), "Sun, 06 Nov 1994 08:49:37 GMT");
    assert_eq!(HttpDate::from_unix(0).unwrap().to_string(), "Thu, 01 Jan 1970 00:00:00 GMT");
    assert_eq!(
        HttpDate::from_unix(FIRST_INSTANT).unwrap().to_string(),
        "Sat, 01 Jan 0000 00:00:00 GMT"
    );
    assert_eq!(
        HttpDate::from_unix(LAST_INSTANT).unwrap().to_string(),
        "Fri, 31 Dec 9999 23:59:59 GMT"
    );
    let mut secs = FIRST_INSTANT;
    while secs <= LAST_INSTANT {
        let date = HttpDate::from_unix(secs).unwrap();
        assert_eq!(date.to_string().into_bytes(), date.format());
        secs += 86_400 * 1_009 + 61;
    }
}
