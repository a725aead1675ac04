use minecraft_launcher_core::date::{normalize, Date};

#[test]
fn offsets_without_colon_get_one() {
    assert_eq!(normalize("2011-11-17T22:00:00+0000"), "2011-11-17T22:00:00+00:00");
    assert_eq!(normalize("2011-11-17T22:00:00-0530"), "2011-11-17T22:00:00-05:30");
}

#[test]
fn other_texts_are_left_alone() {
    assert_eq!(normalize("2023-06-12T13:25:51+00:00"), "2023-06-12T13:25:51+00:00");
    assert_eq!(normalize("2023-06-12T13:25:51Z"), "2023-06-12T13:25:51Z");
    assert_eq!(normalize(""), "");
    assert_eq!(normalize("+000"), "+000");
    assert_eq!(normalize("+0000"), "+00:00");
}

#[test]
fn timestamps_are_read() {
    let date = Date::parse("2023-06-12T13:25:51+00:00").expect("a timestamp");
    assert_eq!(date.seconds, 1686576351);
    assert_eq!(date.nanos, 0);
    assert_eq!(date.offset, 0);
    let date = Date::parse("1970-01-01T01:00:00.5+01:00").expect("a timestamp");
    assert_eq!(date.seconds, 0);
    assert_eq!(date.nanos, 500_000_000);
    assert_eq!(date.offset, 3600);
}

#[test]
fn timestamps_without_colon_are_read() {
    let with = Date::parse("2011-11-17T22:00:00+00:00").expect("a timestamp");
    let without = Date::parse("2011-11-17T22:00:00+0000").expect("a timestamp");
    assert_eq!(with, without);
    let west = Date::parse("2011-11-17T22:00:00-0800").expect("a timestamp");
    assert_eq!(west.offset, -8 * 3600);
    assert_eq!(west.seconds, with.seconds + 8 * 3600);
}

#[test]
fn other_texts_are_not_read() {
    assert!(Date::parse("yesterday").is_none());
    assert!(Date::parse("").is_none());
    assert!(Date::parse("2011-11-17").is_none());
}

#[test]
fn instants_are_compared_whatever_the_offset() {
    let early = Date { seconds: 10, nanos: 5, offset: 3600 };
    let late = Date { seconds: 10, nanos: 6, offset: -3600 };
    let later = Date { seconds: 11, nanos: 0, offset: 0 };
    assert!(late.is_after(&early));
    assert!(!early.is_after(&late));
    assert!(later.is_after(&late));
    assert!(!early.is_after(&early));
    let same = Date { seconds: 10, nanos: 5, offset: 0 };
    assert!(!same.is_after(&early));
    assert!(!early.is_after(&same));
}
