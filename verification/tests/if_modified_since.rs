use headers_ext::{EpochOffset, Header, HttpDate, IfModifiedSince, Values};
use http::header::HeaderValue;
use std::time::{Duration, SystemTime, UNIX_EPOCH};

#[test]
fn is_modified() {
    let now = SystemTime::now();
    let one_sec_ago = now - Duration::from_secs(1);
    let two_sec_ago = now - Duration::from_secs(2);

    let if_mod = IfModifiedSince::from(one_sec_ago);
    assert!(if_mod.is_modified(now));
    assert!(if_mod.is_modified(one_sec_ago));
    assert!(!if_mod.is_modified(two_sec_ago));
}

#[test]
fn is_modified_at_a_fixed_instant() {
    let at = |secs: u64, nanos: u32| UNIX_EPOCH + Duration::new(secs, nanos);
    let now = at(783_459_811, 250_000_000);
    let if_mod = IfModifiedSince::from(at(783_459_810, 250_000_000));
    assert_eq!(if_mod.date().as_unix(), 783_459_810);
    assert!(if_mod.is_modified(now));
    assert!(if_mod.is_modified(at(783_459_810, 250_000_000)));
    assert!(!if_mod.is_modified(at(783_459_809, 250_000_000)));
}

#[test]
fn the_very_second_counts_as_modified() {
    let date = HttpDate::from_unix(1_000).unwrap();
    let if_mod = IfModifiedSince::new(date);
    assert!(if_mod.is_modified(UNIX_EPOCH + Duration::from_secs(1_000)));
    assert!(if_mod.is_modified(UNIX_EPOCH + Duration::new(1_000, 1)));
    assert!(!if_mod.is_modified(UNIX_EPOCH + Duration::new(999, 999_999_999)));
    assert!(if_mod.is_modified(UNIX_EPOCH + Duration::from_secs(1_001)));
}

#[test]
fn is_modified_before_the_epoch() {
    let date = HttpDate::from_unix(-10).unwrap();
    let if_mod = IfModifiedSince::new(date);
    assert!(if_mod.is_modified(UNIX_EPOCH));
    assert!(if_mod.is_modified(UNIX_EPOCH - Duration::from_secs(10)));
    assert!(if_mod.is_modified(UNIX_EPOCH - Duration::new(9, 999_999_999)));
    assert!(!if_mod.is_modified(UNIX_EPOCH - Duration::new(10, 1)));
    assert!(!if_mod.is_modified(UNIX_EPOCH - Duration::from_secs(11)));

    let at_epoch = IfModifiedSince::new(HttpDate::from_unix(0).unwrap());
    assert!(at_epoch.is_modified(UNIX_EPOCH));
    assert!(!at_epoch.is_modified(UNIX_EPOCH - Duration::new(0, 1)));

    let after = IfModifiedSince::new(HttpDate::from_unix(5).unwrap());
    assert!(!after.is_modified(UNIX_EPOCH - Duration::from_secs(5)));
    assert!(!after.is_modified(UNIX_EPOCH));
}

#[test]
fn is_modified_at_takes_plain_offsets() {
    let if_mod = IfModifiedSince::new(HttpDate::from_unix(-3).unwrap());
    let offset = |before: bool, secs: u64, subsec_nanos: u32| EpochOffset { before, secs, subsec_nanos };
    assert!(if_mod.is_modified_at(offset(false, 0, 0)));
    assert!(if_mod.is_modified_at(offset(true, 3, 0)));
    assert!(if_mod.is_modified_at(offset(true, 2, 999_999_999)));
    assert!(!if_mod.is_modified_at(offset(true, 3, 1)));
    // nanoseconds of a second or more carry over into the seconds
    assert!(if_mod.is_modified_at(offset(true, 1, 2_000_000_000)));
    assert!(!if_mod.is_modified_at(offset(true, 1, 2_000_000_001)));
    assert!(!if_mod.is_modified_at(offset(true, u64::MAX, 4_000_000_000)));
    assert!(if_mod.is_modified_at(offset(false, u64::MAX, 4_000_000_000)));
}

#[test]
fn from_system_time_drops_what_is_beyond_the_second() {
    let if_mod = IfModifiedSince::from(UNIX_EPOCH + Duration::new(7, 999_999_999));
    assert_eq!(if_mod.date().as_unix(), 7);
    let before = IfModifiedSince::from(UNIX_EPOCH - Duration::new(7, 1));
    assert_eq!(before.date().as_unix(), -8);
    let whole = IfModifiedSince::from(UNIX_EPOCH - Duration::from_secs(7));
    assert_eq!(whole.date().as_unix(), -7);
}

#[test]
fn to_system_time_gives_the_instant_back() {
    let if_mod = IfModifiedSince::new(HttpDate::from_unix(783_459_811).unwrap());
    assert_eq!(if_mod.to_system_time(), Some(UNIX_EPOCH + Duration::from_secs(783_459_811)));
    let before = IfModifiedSince::new(HttpDate::from_unix(-86_400).unwrap());
    assert_eq!(before.to_system_time(), Some(UNIX_EPOCH - Duration::from_secs(86_400)));
    assert_eq!(IfModifiedSince::from(if_mod.to_system_time().unwrap()), if_mod);
}

#[test]
fn decode_takes_one_value() {
    let values = vec![
        HeaderValue::from_static("Sat, 29 Oct 1994 19:43:31 GMT"),
        HeaderValue::from_static("Sun, 30 Oct 1994 19:43:31 GMT"),
    ];
    let mut cursor = Values::new(&values);
    let first = IfModifiedSince::decode(&mut cursor).unwrap();
    assert_eq!(first.date().as_unix(), 783_459_811);
    assert_eq!(cursor.len(), 1);
    let second = IfModifiedSince::decode(&mut cursor).unwrap();
    assert_eq!(second.date().as_unix(), 783_459_811 + 86_400);
    assert!(cursor.is_empty());
    assert_eq!(IfModifiedSince::decode(&mut cursor), None);
}

#[test]
fn decode_of_no_value_is_nothing() {
    let values: Vec<HeaderValue> = Vec::new();
    let mut cursor = Values::new(&values);
    assert_eq!(IfModifiedSince::decode(&mut cursor), None);
    assert!(cursor.is_empty());
}

#[test]
fn decode_refuses_what_is_no_date() {
    let values = vec![HeaderValue::from_static("not a date"), HeaderValue::from_static("x")];
    let mut cursor = Values::new(&values);
    assert_eq!(IfModifiedSince::decode(&mut cursor), None);
    // the refused value is gone from the cursor all the same
    assert_eq!(cursor.len(), 1);
}

#[test]
fn encode_appends_the_canonical_text() {
    let values = vec![HeaderValue::from_static("Saturday, 29-Oct-94 19:43:31 GMT")];
    let mut cursor = Values::new(&values);
    let if_mod = IfModifiedSince::decode(&mut cursor).unwrap();
    let mut sink = vec![HeaderValue::from_static("kept")];
    if_mod.encode(&mut sink);
    assert_eq!(sink.len(), 2);
    assert_eq!(sink[0].as_bytes(), b"kept");
    assert_eq!(sink[1].as_bytes(), b"Sat, 29 Oct 1994 19:43:31 GMT");

    let mut again = Values::new(&sink[1..]);
    assert_eq!(IfModifiedSince::decode(&mut again), Some(if_mod));
}

#[test]
fn name_is_the_field_name() {
    assert_eq!(IfModifiedSince::name(), "if-modified-since");
    assert_eq!(IfModifiedSince::name(), http::header::IF_MODIFIED_SINCE.as_str());
}

#[test]
fn headers_are_ordered_as_their_dates() {
    let early = IfModifiedSince::new(HttpDate::from_unix(-5).unwrap());
    let late = IfModifiedSince::new(HttpDate::from_unix(5).unwrap());
    assert!(early < late);
    assert!(late > early);
    assert!(early <= early);
    assert_eq!(early, IfModifiedSince::new(HttpDate::from_unix(-5).unwrap()));
    assert_ne!(early, late);
    assert_eq!(early.max(late), late);
}
