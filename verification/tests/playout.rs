use ersatztv::clock::{Duration, OffsetDateTime};
use ersatztv::playout::{
    parse_playout_filename, parse_stem_moment, parse_unix_timestamp, Playout, PlayoutItem,
    PlayoutItemSource,
};

fn utc(seconds: i128) -> OffsetDateTime {
    OffsetDateTime::new(seconds * 1_000_000_000, 0).unwrap()
}

#[test]
fn file_names_in_iso_8601_denote_windows() {
    let (start, finish) = parse_playout_filename(
        "20260413T000000.000000000-0500_20260414T002131.620000000-0500",
    )
    .unwrap();
    assert_eq!(start.unix_nanos, 1_776_056_400_000_000_000);
    assert_eq!(start.offset_seconds, -18_000);
    assert_eq!(finish.unix_nanos, 1_776_144_091_620_000_000);
    assert_eq!(finish.offset_seconds, -18_000);
}

#[test]
fn file_names_may_mix_iso_8601_and_unix_timestamps() {
    let (start, finish) = parse_playout_filename("1776056400_20260413T060000Z").unwrap();
    assert_eq!(start, utc(1_776_056_400));
    assert_eq!(start.offset_seconds, 0);
    assert_eq!(finish, utc(1_776_060_000));
}

#[test]
fn file_names_with_other_than_two_moments_denote_nothing() {
    assert!(parse_playout_filename("").is_none());
    assert!(parse_playout_filename("1776056400").is_none());
    assert!(parse_playout_filename("1776056400_").is_none());
    assert!(parse_playout_filename("_1776056400").is_none());
    assert!(parse_playout_filename("1_2_3").is_none());
    assert!(parse_playout_filename("1776056400_tomorrow").is_none());
}

#[test]
fn long_unix_timestamps_count_milliseconds() {
    assert_eq!(parse_unix_timestamp("1776056400"), Some(utc(1_776_056_400)));
    assert_eq!(parse_unix_timestamp("1776056400999"), Some(utc(1_776_056_400)));
    assert_eq!(parse_unix_timestamp("-1"), Some(utc(-1)));
    assert_eq!(parse_unix_timestamp("-12345678999"), Some(utc(-12_345_678)));
    assert_eq!(parse_unix_timestamp("+7"), Some(utc(7)));
    assert_eq!(parse_unix_timestamp("0000000000001"), Some(utc(0)));
}

#[test]
fn unix_timestamps_out_of_range_denote_nothing() {
    assert!(parse_unix_timestamp("").is_none());
    assert!(parse_unix_timestamp("12a").is_none());
    assert!(parse_unix_timestamp("9223372036854775807").is_none());
    assert!(parse_unix_timestamp("9223372036854775808").is_none());
    assert!(parse_unix_timestamp("-9223372036854775808").is_none());
    assert_eq!(
        parse_unix_timestamp("253402300799999"),
        Some(utc(253_402_300_799))
    );
    assert!(parse_unix_timestamp("253402300800000").is_none());
}

#[test]
fn iso_8601_goes_before_unix_timestamps() {
    let moment = utc(5);
    assert_eq!(parse_stem_moment(Some(moment), "7"), Some(moment));
    assert_eq!(parse_stem_moment(None, "7"), Some(utc(7)));
    assert!(parse_stem_moment(None, "x").is_none());
}

#[test]
fn moments_are_compared_by_instant() {
    let a = OffsetDateTime::new(0, 0).unwrap();
    let b = OffsetDateTime::new(0, 3600).unwrap();
    assert!(a == b);
    assert!(OffsetDateTime::new(0, 93_600).is_none());
    assert!(OffsetDateTime::new(253_402_300_800_000_000_000, 0).is_none());
    assert!(OffsetDateTime::new(253_402_300_800_000_000_000, -1).is_some());
}

#[test]
fn a_new_playout_has_the_current_version() {
    let playout = Playout::new(Vec::new());
    assert_eq!(playout.version, "https://ersatztv.org/playout/version/0.0.1");
    assert!(playout.items.is_empty());
}

#[test]
fn a_new_item_plays_a_local_file() {
    let item = PlayoutItem::new(
        "id".to_string(),
        utc(0),
        utc(60),
        Some(Duration { secs: 1, nanos: 500_900_000 }),
        None,
        "/media/a.mkv",
    )
    .unwrap();
    assert_eq!(item.id, "id");
    assert_eq!(item.finish(), utc(60));
    assert!(
        item.source
            == Some(PlayoutItemSource::Local {
                path: "/media/a.mkv".to_string(),
                in_point_ms: Some(1500),
                out_point_ms: None,
            })
    );
    assert!(item.tracks.is_none());
    assert!(item.watermark.is_none());
}

#[test]
fn milliseconds_that_do_not_fit_are_cut_off() {
    let item = PlayoutItem::new(
        "id".to_string(),
        utc(0),
        utc(60),
        Some(Duration { secs: u64::MAX, nanos: 0 }),
        None,
        "a",
    )
    .unwrap();
    let expected = (u64::MAX as u128 * 1000) as u64;
    assert!(
        item.source
            == Some(PlayoutItemSource::Local {
                path: "a".to_string(),
                in_point_ms: Some(expected),
                out_point_ms: None,
            })
    );
}

fn http(headers: Option<Vec<String>>, user_agent: Option<String>) -> PlayoutItemSource {
    PlayoutItemSource::Http {
        uri: "http://host/a".to_string(),
        in_point_ms: None,
        out_point_ms: Some(3),
        headers,
        user_agent,
        timeout_us: None,
        reconnect: None,
        reconnect_delay_max: None,
        keep_alive: None,
    }
}

#[test]
fn sources_are_equal_when_all_fields_are() {
    let headers = Some(vec!["A: b".to_string(), "C: d".to_string()]);
    let a = http(headers.clone(), Some("ua".to_string()));
    assert!(a == a.clone());
    assert!(a != http(headers.clone(), None));
    assert!(a != http(Some(vec!["A: b".to_string()]), Some("ua".to_string())));
    assert!(a != http(None, Some("ua".to_string())));
    let rtsp = PlayoutItemSource::Rtsp {
        uri: "u".to_string(),
        timeout_us: None,
    };
    let rtmp = PlayoutItemSource::Rtmp {
        uri: "u".to_string(),
        timeout_us: None,
    };
    assert!(rtsp != rtmp);
    assert!(rtsp == rtsp.clone());
    let script = PlayoutItemSource::Script {
        command: "c".to_string(),
        args: vec!["x".to_string()],
        is_live: None,
    };
    assert!(script == script.clone());
}
