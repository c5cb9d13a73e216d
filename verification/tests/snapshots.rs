use cache_service::cache::{CacheCommand, CachePlan, CacheValue};
use cache_service::codec::{
    decode_value, encode_value, value_from_base64, value_to_base64, CodecError,
};
use cache_service::snapshot::{
    encode_snapshot, load_cache_snapshot, restore_entries, restore_snapshot, SnapshotError,
};
use cache_service::timestamp::{Timestamp, MAX_SECS, MIN_SECS};
use chrono::{DateTime, Utc};
use serde_json::Value;

fn at(secs: i64, nanos: u32) -> Timestamp {
    Timestamp::new(secs, nanos).unwrap()
}

fn restored(plan: CachePlan) -> Vec<(String, Option<(i64, u32)>, Vec<u8>)> {
    plan.commands.into_iter().map(|command| match command {
        CacheCommand::Insert(key, (expires_at, bytes)) => {
            (key, expires_at.map(|at| (at.secs(), at.nanos())), bytes)
        }
        other => panic!("{:?}", other),
    }).collect()
}

#[test]
fn snapshots_give_back_their_entries() {
    let entries: Vec<(String, CacheValue)> = vec![
        ("first".to_string(), (Some(at(2_000_000_000, 123_456_789)), vec![0, 127, 128, 255])),
        ("\u{e9}\u{1f600}".to_string(), (None, vec![])),
        ("".to_string(), (Some(at(MAX_SECS, 1_999_999_999)), vec![1; 70_000])),
        ("leap".to_string(), (Some(at(2_000_000_039, 1_000_000_000)), vec![2])),
        ("milli".to_string(), (Some(at(2_000_000_000, 5_000_000)), vec![3])),
        ("micro".to_string(), (Some(at(2_000_000_000, 5_000)), vec![4])),
        ("far".to_string(), (Some(at(253_402_300_800, 0)), vec![5])),
    ];
    let expected: Vec<(String, Option<(i64, u32)>, Vec<u8>)> = entries.iter().map(|entry| {
        (entry.0.clone(), entry.1.0.map(|at| (at.secs(), at.nanos())), entry.1.1.clone())
    }).collect();
    let data = encode_snapshot(&entries).unwrap();
    let plan = restore_snapshot(&Some(data), &at(MIN_SECS, 0)).unwrap();
    assert_eq!(restored(plan), expected);
}

#[test]
fn snapshots_give_back_deadlines_before_the_common_era() {
    let entries: Vec<(String, CacheValue)> = vec![
        ("a".to_string(), (Some(at(MIN_SECS, 1)), vec![])),
        ("b".to_string(), (Some(at(-62_167_219_201, 0)), vec![])),
        ("c".to_string(), (Some(at(-1, 1_000_000_001)), vec![])),
    ];
    let data = encode_snapshot(&entries).unwrap();
    let plan = restore_snapshot(&Some(data), &at(MIN_SECS, 0)).unwrap();
    let deadlines: Vec<(i64, u32)> = restored(plan).into_iter().map(|row| row.1.unwrap()).collect();
    assert_eq!(deadlines, vec![(MIN_SECS, 1), (-62_167_219_201, 0), (-1, 1_000_000_001)]);
}

#[test]
fn snapshots_hold_deadlines_as_text() {
    let entries: Vec<(String, CacheValue)> =
        vec![("k".to_string(), (Some(at(1_431_648_000, 0)), vec![7]))];
    let data = encode_snapshot(&entries).unwrap();
    let mut expected = vec![0x91, 0x92, 0xa1, b'k', 0x92, 0xb4];
    expected.extend_from_slice(b"2015-05-15T00:00:00Z");
    expected.extend_from_slice(&[0x91, 7]);
    assert_eq!(data, expected);
    let rows: Vec<(String, (Option<DateTime<Utc>>, Vec<u8>))> =
        rmp_serde::from_slice(&data).unwrap();
    assert_eq!(rows[0].1.0.unwrap().timestamp(), 1_431_648_000);
}

#[test]
fn only_unexpired_entries_come_back() {
    let now = at(1_000, 500);
    let entries: Vec<(String, CacheValue)> = vec![
        ("past".to_string(), (Some(at(999, 0)), vec![1])),
        ("for good".to_string(), (None, vec![2])),
        ("just now".to_string(), (Some(at(1_000, 500)), vec![3])),
        ("ahead".to_string(), (Some(at(1_000, 501)), vec![4])),
    ];
    let expected = vec![
        ("for good".to_string(), None, vec![2]),
        ("ahead".to_string(), Some((1_000, 501)), vec![4]),
    ];
    let data = encode_snapshot(&entries).unwrap();
    assert_eq!(restored(restore_snapshot(&Some(data), &now).unwrap()), expected);
    assert_eq!(restored(restore_entries(entries, &now)), expected);
}

#[test]
fn loading_goes_by_the_clock() {
    let entries: Vec<(String, CacheValue)> = vec![
        ("past".to_string(), (Some(at(0, 0)), vec![1])),
        ("ahead".to_string(), (Timestamp::now().plus_millis(600_000), vec![2])),
    ];
    let data = encode_snapshot(&entries).unwrap();
    let rows = restored(load_cache_snapshot(&Some(data)).unwrap());
    assert_eq!(rows.len(), 1);
    assert_eq!(rows[0].0, "ahead");
}

#[test]
fn missing_snapshots_bring_nothing_back() {
    assert!(restored(load_cache_snapshot(&None).unwrap()).is_empty());
    let data = encode_snapshot(&Vec::new()).unwrap();
    assert_eq!(data, vec![0x90]);
    assert!(restored(load_cache_snapshot(&Some(data)).unwrap()).is_empty());
}

#[test]
fn damaged_snapshots_are_refused() {
    let entries: Vec<(String, CacheValue)> = vec![("k".to_string(), (None, vec![1, 2, 3]))];
    let mut data = encode_snapshot(&entries).unwrap();
    data.pop();
    assert!(matches!(load_cache_snapshot(&Some(data)), Err(SnapshotError::Decode)));
    assert!(matches!(load_cache_snapshot(&Some(Vec::new())), Err(SnapshotError::Decode)));
    assert!(matches!(load_cache_snapshot(&Some(vec![0xc0])), Err(SnapshotError::Decode)));
}

#[test]
fn payloads_survive_as_text() {
    let payload: Value = serde_json::from_str(r#"{ "value": "Hello World" }"#).unwrap();
    let text = value_to_base64(&payload).unwrap();
    assert_eq!(text, "gaV2YWx1ZatIZWxsbyBXb3JsZA==");
    assert_eq!(value_from_base64(&text).unwrap(), payload);
}

#[test]
fn text_that_is_no_payload_is_refused() {
    assert_eq!(value_from_base64("not base64!").unwrap_err(), CodecError::Text);
    assert_eq!(value_from_base64("gaV2YWx1ZatIZWxsbyBXb3JsZA").unwrap_err(), CodecError::Text);
    assert_eq!(value_from_base64("wQ==").unwrap_err(), CodecError::Decode);
    assert_eq!(value_from_base64("").unwrap_err(), CodecError::Decode);
}

#[test]
fn values_are_encoded_as_messagepack() {
    let value: Value = serde_json::from_str(r#"{"foo": "bar", "n": [1, -1, 200, true, null]}"#).unwrap();
    let bytes = encode_value(&value).unwrap();
    let mut expected = vec![0x82, 0xa3];
    expected.extend_from_slice(b"foo");
    expected.push(0xa3);
    expected.extend_from_slice(b"bar");
    expected.extend_from_slice(&[0xa1, b'n', 0x95, 1, 0xff, 0xcc, 200, 0xc3, 0xc0]);
    assert_eq!(bytes, expected);
    assert_eq!(decode_value(&bytes).unwrap(), value);
    assert_eq!(decode_value(&[]).unwrap_err(), CodecError::Decode);
}
