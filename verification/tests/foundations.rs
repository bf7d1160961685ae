use sapphillon::page_token::{
    decode_page_token, encode_page_token, finish_page, page_limit, page_query_limit,
    u64_from_be_bytes, u64_to_be_bytes, DEFAULT_PAGE_SIZE,
};
use sapphillon::resource_json::{resource_json_of, resources_of};
use sapphillon::text::{i32_to_decimal, insert_sorted_text, same_text, text_less};
use sapphillon::timestamp::{
    datetime_to_proto_timestamp, proto_timestamp_to_datetime, ProtoTimestamp, UtcDateTime,
    MAX_UTC_SECONDS, MIN_UTC_SECONDS,
};
use sapphillon::TestState;

#[test]
fn page_token_round_trips_offsets() {
    for offset in [0u64, 1, 100, 257, u64::MAX] {
        let token = encode_page_token(offset);
        assert_eq!(decode_page_token(Some(token)), offset);
    }
}

#[test]
fn page_token_is_base64_of_big_endian_offset() {
    assert_eq!(encode_page_token(0), "AAAAAAAAAAA=");
    assert_eq!(encode_page_token(1), "AAAAAAAAAAE=");
    assert_eq!(encode_page_token(256), "AAAAAAAAAQA=");
}

#[test]
fn page_token_falls_back_to_start() {
    assert_eq!(decode_page_token(None), 0);
    assert_eq!(decode_page_token(Some("not base64!".to_string())), 0);
    // four bytes of zero: valid base64 but not eight bytes long
    assert_eq!(decode_page_token(Some("AAAAAA==".to_string())), 0);
    assert_eq!(decode_page_token(Some(String::new())), 0);
}

#[test]
fn big_endian_bytes_round_trip() {
    let bytes = u64_to_be_bytes(0x0102_0304_0506_0708);
    assert_eq!(bytes, vec![1, 2, 3, 4, 5, 6, 7, 8]);
    assert_eq!(u64_from_be_bytes(&bytes), 0x0102_0304_0506_0708);
}

#[test]
fn page_limits() {
    assert_eq!(page_limit(None), DEFAULT_PAGE_SIZE);
    assert_eq!(page_limit(Some(0)), 100);
    assert_eq!(page_limit(Some(7)), 7);
    assert_eq!(page_query_limit(7), 8);
    assert_eq!(page_query_limit(u64::MAX), u64::MAX);
}

#[test]
fn finish_page_cuts_and_points_at_next_page() {
    let (rows, token) = finish_page(vec![1, 2, 3], 10, 2);
    assert_eq!(rows, vec![1, 2]);
    assert_eq!(decode_page_token(Some(token)), 12);

    let (rows, token) = finish_page(vec![1, 2], 10, 2);
    assert_eq!(rows, vec![1, 2]);
    assert!(token.is_empty());
}

#[test]
fn chrono_range_boundaries() {
    assert!(UtcDateTime::from_timestamp(MIN_UTC_SECONDS, 0).is_some());
    assert!(UtcDateTime::from_timestamp(MIN_UTC_SECONDS - 1, 999_999_999).is_none());
    assert!(UtcDateTime::from_timestamp(MAX_UTC_SECONDS, 999_999_999).is_some());
    assert!(UtcDateTime::from_timestamp(MAX_UTC_SECONDS + 1, 0).is_none());
}

#[test]
fn chrono_leap_second_nanoseconds() {
    assert!(UtcDateTime::from_timestamp(59, 1_500_000_000).is_some());
    assert!(UtcDateTime::from_timestamp(58, 1_500_000_000).is_none());
    assert!(UtcDateTime::from_timestamp(-1, 1_999_999_999).is_some());
    assert!(UtcDateTime::from_timestamp(59, 2_000_000_000).is_none());
}

#[test]
fn proto_timestamps_normalize() {
    let dt = proto_timestamp_to_datetime(&ProtoTimestamp { seconds: 10, nanos: -1 }).unwrap();
    assert_eq!(dt.timestamp(), 9);
    assert_eq!(dt.timestamp_subsec_nanos(), 999_999_999);

    let dt =
        proto_timestamp_to_datetime(&ProtoTimestamp { seconds: 10, nanos: 1_500_000_000 }).unwrap();
    assert_eq!(dt.timestamp(), 11);
    assert_eq!(dt.timestamp_subsec_nanos(), 500_000_000);

    assert!(proto_timestamp_to_datetime(&ProtoTimestamp { seconds: i64::MAX, nanos: 1_000_000_000 })
        .is_none());
    assert!(proto_timestamp_to_datetime(&ProtoTimestamp { seconds: MAX_UTC_SECONDS + 1, nanos: 0 })
        .is_none());
}

#[test]
fn datetime_proto_round_trip() {
    let ts = ProtoTimestamp { seconds: 1_726_000_000, nanos: 123_000_000 };
    let dt = proto_timestamp_to_datetime(&ts).unwrap();
    assert_eq!(datetime_to_proto_timestamp(&dt), ts);
}

#[test]
fn resources_round_trip_through_json() {
    let resources = vec!["a".to_string(), "b \"quoted\"".to_string()];
    let json = resource_json_of(&resources);
    assert_eq!(json.as_deref(), Some("[\"a\",\"b \\\"quoted\\\"\"]"));
    assert_eq!(resources_of(&json), resources);

    assert_eq!(resource_json_of(&Vec::new()), None);
    assert!(resources_of(&None).is_empty());
    assert!(resources_of(&Some("not json".to_string())).is_empty());
}

#[test]
fn decimal_text_of_integers() {
    assert_eq!(i32_to_decimal(0), "0");
    assert_eq!(i32_to_decimal(42), "42");
    assert_eq!(i32_to_decimal(-42), "-42");
    assert_eq!(i32_to_decimal(i32::MIN), "-2147483648");
    assert_eq!(i32_to_decimal(i32::MAX), "2147483647");
}

#[test]
fn text_order_matches_str_order() {
    let samples = ["", "a", "ab", "b", "B", "é", "z", "aa"];
    for a in samples {
        for b in samples {
            assert_eq!(text_less(a, b), a < b, "{a:?} < {b:?}");
            assert_eq!(same_text(a, b), a == b);
        }
    }
}

#[test]
fn sorted_insertion_keeps_order_and_drops_repeats() {
    let mut ids: Vec<String> = Vec::new();
    for x in ["m", "c", "x", "c", "a", "m"] {
        insert_sorted_text(&mut ids, x.to_string());
    }
    assert_eq!(ids, vec!["a", "c", "m", "x"]);
}

#[test]
fn test_state_points_at_shared_memory_database() {
    let state = TestState::new_in_memory();
    assert_eq!(state.db_url(), "sqlite::memory:?cache=shared");
}

#[test]
fn the_clock_reads_after_the_epoch_outside_a_leap_second() {
    let now = UtcDateTime::now();
    assert!(now.timestamp() > 1_700_000_000);
    assert!(now.timestamp_subsec_nanos() < 1_000_000_000);
    assert_eq!(UtcDateTime::from_timestamp(now.timestamp(), now.timestamp_subsec_nanos()), Some(now));
}

#[test]
fn earliest_instant_is_the_documented_date() {
    let earliest = chrono::DateTime::from_timestamp(MIN_UTC_SECONDS, 0).unwrap();
    assert_eq!(earliest.format("%Y-%m-%dT%H:%M:%S").to_string(), "-262143-01-01T00:00:00");
    assert!(chrono::DateTime::from_timestamp(MIN_UTC_SECONDS - 86_400, 0).is_none());
}

#[test]
fn walking_pages_by_token_reads_every_row_once() {
    let store: Vec<u32> = (0..5).collect();
    for size in [1u32, 2, 3, 5, 7] {
        let mut token: Option<String> = None;
        let mut seen: Vec<u32> = Vec::new();
        let mut calls: u32 = 0;
        loop {
            let offset = decode_page_token(token.clone());
            let limit = page_limit(Some(size));
            let query = page_query_limit(limit) as usize;
            let fetched: Vec<u32> = store.iter().skip(offset as usize).take(query).cloned().collect();
            let (page, next) = finish_page(fetched, offset, limit);
            seen.extend(page);
            calls += 1;
            if next.is_empty() {
                break;
            }
            assert_eq!(next.len(), 12);
            token = Some(next);
        }
        assert_eq!(seen, store);
        assert_eq!(calls, (5 + size - 1) / size);
    }
}

#[test]
fn a_full_page_with_rows_left_gets_a_token() {
    let (page, token) = finish_page(vec!["a", "b", "c"], 0, 2);
    assert_eq!(page, vec!["a", "b"]);
    assert!(!token.is_empty());
    assert_eq!(decode_page_token(Some(token)), 2);
}

#[test]
fn most_negative_nanoseconds_are_normalised() {
    let ts = ProtoTimestamp { seconds: 0, nanos: i32::MIN };
    assert_eq!(proto_timestamp_to_datetime(&ts), UtcDateTime::from_timestamp(-3, 852_516_352));
    let ts = ProtoTimestamp { seconds: 10, nanos: -2_100_000_000 };
    let dt = proto_timestamp_to_datetime(&ts).unwrap();
    assert_eq!(dt.timestamp() as i128 * 1_000_000_000 + dt.timestamp_subsec_nanos() as i128, 10 * 1_000_000_000 + ts.nanos as i128);
}
