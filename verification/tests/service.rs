use cache_service::cache::{key_matches, CacheCommand, CachePlan, CacheValue};
use cache_service::codec::{encode_value, CodecError};
use cache_service::error::ApplicationError;
use cache_service::expiry::{live_at, ExpiryPolicyForCacheExt};
use cache_service::handlers::{
    delete_cache, fallback, fetched, find_cache_by_key, found, health_check, invalidate_by_text,
    list_entries, load_cache_entries, save_bytes, save_cache, saved_reply, Reply, ReplyBody,
    SaveError, SetPayload, INTERNAL_SERVER_ERROR, NOT_FOUND, OK,
};
use cache_service::snapshot::{load_cache_snapshot, save_cache_snapshot};
use cache_service::store::SharedCache;
use cache_service::timestamp::Timestamp;
use futures::executor::block_on;
use moka::future::Cache;
use serde_json::Value;
use std::io::{Read, Write};
use std::time::{Duration, Instant};
use tempfile::NamedTempFile;

fn json(text: &str) -> Value {
    serde_json::from_str(text).unwrap()
}

fn test_cache(max_capacity: u64) -> SharedCache {
    Cache::builder().max_capacity(max_capacity).support_invalidation_closures().build()
}

struct Policy(ExpiryPolicyForCacheExt);

impl moka::Expiry<String, CacheValue> for Policy {
    fn expire_after_create(
        &self,
        _key: &String,
        value: &CacheValue,
        _created_at: Instant,
    ) -> Option<Duration> {
        let left = self.0.expire_after_create(value);
        left.map(|left| Duration::new(left.secs, left.nanos))
    }
}

fn expiring_cache(max_capacity: u64) -> SharedCache {
    Cache::builder()
        .max_capacity(max_capacity)
        .expire_after(Policy(ExpiryPolicyForCacheExt))
        .build()
}

fn run(cache: &SharedCache, plan: CachePlan) {
    for command in plan.commands {
        match command {
            CacheCommand::Invalidate(key) => block_on(cache.invalidate(&key)),
            CacheCommand::Insert(key, value) => {
                let deadline = value.0;
                block_on(cache.insert(key.clone(), value));
                if !live_at(&deadline, &Timestamp::now()) {
                    block_on(cache.invalidate(&key));
                }
            }
            CacheCommand::InvalidateMatching(text) => {
                cache.invalidate_entries_if(move |key, _| key_matches(key, &text)).unwrap();
            }
        }
    }
}

fn set(cache: &SharedCache, key: &str, value: &str, ttl: Option<u64>) -> Reply {
    let payload = SetPayload { value: json(value), ttl };
    let (plan, reply) = save_cache(key.to_string(), payload).unwrap();
    run(cache, plan);
    reply
}

fn get(cache: &SharedCache, key: &str) -> Reply {
    let found = block_on(cache.get(key));
    find_cache_by_key(key.to_string(), fetched(key.to_string(), found)).unwrap()
}

fn message_of(reply: Reply) -> String {
    match reply.body {
        ReplyBody::Message { message } => message,
        other => panic!("no message: {:?}", other),
    }
}

fn failure_of(reply: Reply) -> (String, String) {
    match reply.body {
        ReplyBody::Failure { message, error_code } => (message, error_code),
        other => panic!("no failure: {:?}", other),
    }
}

fn entry_of(reply: Reply) -> (String, Value) {
    match reply.body {
        ReplyBody::Entry { key, value } => (key, value),
        other => panic!("no entry: {:?}", other),
    }
}

fn listing_of(reply: Reply) -> (usize, Vec<(String, Option<i64>)>) {
    match reply.body {
        ReplyBody::Listing { count, entries } => (
            count,
            entries.into_iter().map(|line| (line.key, line.ttl.map(|at| at.secs()))).collect(),
        ),
        other => panic!("no listing: {:?}", other),
    }
}

fn commands_of(plan: &CachePlan) -> Vec<String> {
    plan.commands.iter().map(|command| match command {
        CacheCommand::Invalidate(key) => format!("drop {}", key),
        CacheCommand::Insert(key, value) => {
            format!("store {} {:?} {:?}", key, value.0.map(|at| (at.secs(), at.nanos())), value.1)
        }
        CacheCommand::InvalidateMatching(text) => format!("drop all with {}", text),
    }).collect()
}

#[test]
fn test_snapshot_save_and_load() {
    // Create a temporary file for the snapshot
    let mut tmp = NamedTempFile::new().unwrap();

    // Create a cache and insert some data
    let cache = test_cache(10);
    let key = "mykey".to_string();
    let value: Vec<u8> = vec![1, 2, 3, 4];
    let expires_at = Timestamp::now().plus_millis(5_000);
    assert!(expires_at.is_some());
    block_on(cache.insert(key.clone(), (expires_at, value.clone())));

    // Save the cache to the snapshot file
    let snapshot = save_cache_snapshot(&cache).unwrap();
    tmp.write_all(&snapshot).unwrap();
    tmp.flush().unwrap();

    // Create a new cache and load from the snapshot
    let mut data = Vec::new();
    tmp.reopen().unwrap().read_to_end(&mut data).unwrap();
    let loaded_cache = test_cache(10);
    run(&loaded_cache, load_cache_snapshot(&Some(data)).unwrap());

    // The value should be present in the loaded cache
    let loaded = block_on(loaded_cache.get(&key));
    assert!(loaded.is_some());
    let loaded = loaded.unwrap();
    assert_eq!(loaded.1, value);
    assert_eq!(loaded.0.unwrap().secs(), expires_at.unwrap().secs());
    assert_eq!(loaded.0.unwrap().nanos(), expires_at.unwrap().nanos());
}

#[test]
fn test_health_check() {
    let response = health_check();
    assert_eq!(response.status, OK);
    assert_eq!(message_of(response), "ok");
}

#[test]
fn test_set_and_get_cache_value() {
    let cache = test_cache(100);

    // Set value
    let key = "test-key";
    let response = set(&cache, key, r#"{"foo": "bar"}"#, Some(10000));
    assert_eq!(response.status, OK);
    assert_eq!(message_of(response), "Key test-key set successfully with TTL 10s");

    // Get value
    let response = get(&cache, key);
    assert_eq!(response.status, OK);
    let (found, value) = entry_of(response);
    assert_eq!(found, key);
    assert_eq!(value["foo"], "bar");
}

#[test]
fn test_delete_cache_value() {
    let cache = test_cache(100);
    let key = "delete-key";

    // Set value
    let response = set(&cache, key, r#"{"x": 1}"#, Some(5000));
    assert_eq!(response.status, OK);

    // Delete value
    let (plan, response) = delete_cache(key.to_string());
    run(&cache, plan);
    assert_eq!(response.status, OK);
    assert_eq!(message_of(response), "Cache key delete-key deleted.");

    // Get value should now return NOT_FOUND
    let response = get(&cache, key);
    assert_eq!(response.status, NOT_FOUND);
    assert_eq!(
        failure_of(response),
        ("Key not found".to_string(), "KEY_NOT_FOUND".to_string())
    );
}

#[test]
fn test_list_cache_entries_by_prefix() {
    let cache = test_cache(100);

    // Set some values with common prefix
    for suffix in ["1", "2", "3"] {
        let key = format!("pfx-{suffix}");
        set(&cache, &key, r#"{"n": 1}"#, Some(10000));
    }

    // List entries by prefix
    let response = load_cache_entries(&cache, "pfx-");
    assert_eq!(response.status, OK);
    let (count, lines) = listing_of(response);
    assert_eq!(count, 3);
    let mut keys: Vec<String> = lines.into_iter().map(|(key, _)| key).collect();
    keys.sort();
    assert_eq!(keys, vec!["pfx-1", "pfx-2", "pfx-3"]);
}

#[test]
fn invalidation_drops_the_keys_that_hold_the_text() {
    let cache = test_cache(100);
    for key in ["user:1", "user:2", "session:user", "other"] {
        set(&cache, key, "1", None);
    }
    let (plan, response) = invalidate_by_text("user".to_string());
    assert_eq!(commands_of(&plan), vec!["drop all with user"]);
    run(&cache, plan);
    assert_eq!(response.status, OK);
    assert_eq!(message_of(response), "Cache keys invalidated");
    for key in ["user:1", "user:2", "session:user"] {
        assert_eq!(get(&cache, key).status, NOT_FOUND);
    }
    assert_eq!(get(&cache, "other").status, OK);
}

#[test]
fn keys_match_the_texts_they_hold() {
    assert!(key_matches("abc", "bc"));
    assert!(key_matches("abc", "abc"));
    assert!(key_matches("abc", ""));
    assert!(key_matches("", ""));
    assert!(!key_matches("abc", "ac"));
    assert!(!key_matches("bc", "abc"));
    assert!(key_matches("schl\u{fc}ssel", "\u{fc}s"));
}

#[test]
fn listing_keeps_order_and_deadlines() {
    let at = Timestamp::new(1_700_000_000, 5);
    let entries: Vec<(String, CacheValue)> = vec![
        ("b".to_string(), (at, vec![1])),
        ("ab".to_string(), (None, vec![2])),
        ("a".to_string(), (at, vec![3])),
        ("ba".to_string(), (None, vec![])),
    ];
    let (count, lines) = listing_of(list_entries(entries, "b"));
    assert_eq!(count, 2);
    assert_eq!(
        lines,
        vec![("b".to_string(), Some(1_700_000_000)), ("ba".to_string(), None)]
    );
}

#[test]
fn keys_that_hold_the_prefix_elsewhere_are_not_listed() {
    let cache = test_cache(100);
    set(&cache, "pfx-1", "1", None);
    set(&cache, "other-pfx-2", "2", None);
    let (count, lines) = listing_of(load_cache_entries(&cache, "pfx-"));
    assert_eq!(count, 1);
    assert_eq!(lines, vec![("pfx-1".to_string(), None)]);
}

#[test]
fn empty_prefix_lists_all() {
    let entries: Vec<(String, CacheValue)> =
        vec![("x".to_string(), (None, vec![])), ("".to_string(), (None, vec![]))];
    assert_eq!(listing_of(list_entries(entries, "")).0, 2);
    assert_eq!(listing_of(list_entries(Vec::new(), "")).0, 0);
}

#[test]
fn saving_drops_what_was_there_first() {
    let at = Timestamp::new(12, 34);
    let (plan, reply) = save_bytes("k".to_string(), vec![7, 8], at, Some(1_500));
    assert_eq!(commands_of(&plan), vec!["drop k", "store k Some((12, 34)) [7, 8]"]);
    assert_eq!(reply.status, OK);
    assert_eq!(message_of(reply), "Key k set successfully with TTL 1.5s");
}

#[test]
fn what_is_to_live_for_no_time_is_not_stored() {
    let (plan, reply) = save_bytes("k".to_string(), vec![7], Timestamp::new(12, 34), Some(0));
    assert_eq!(commands_of(&plan), vec!["drop k"]);
    assert_eq!(reply.status, OK);
    assert_eq!(message_of(reply), "Key k set successfully with TTL 0ns");

    let cache = expiring_cache(100);
    set(&cache, "k", "1", None);
    let reply = set(&cache, "k", "2", Some(0));
    assert_eq!(reply.status, OK);
    assert_eq!(get(&cache, "k").status, NOT_FOUND);
}

#[test]
fn values_are_found_until_their_ttl_is_over() {
    let cache = expiring_cache(100);
    set(&cache, "short", "1", Some(50));
    set(&cache, "long", "2", Some(60_000));
    set(&cache, "for good", "3", None);
    assert_eq!(get(&cache, "long").status, OK);
    let end = Instant::now() + Duration::from_millis(80);
    while Instant::now() < end {}
    assert_eq!(get(&cache, "short").status, NOT_FOUND);
    assert_eq!(get(&cache, "long").status, OK);
    assert_eq!(get(&cache, "for good").status, OK);
}

#[test]
fn new_values_do_not_take_over_a_deadline() {
    let cache = expiring_cache(100);
    set(&cache, "k", "1", Some(50));
    set(&cache, "k", "2", None);
    let end = Instant::now() + Duration::from_millis(80);
    while Instant::now() < end {}
    assert_eq!(entry_of(get(&cache, "k")).1, json("2"));
}

#[test]
fn values_that_come_too_late_are_dropped_again() {
    let cache = expiring_cache(100);
    set(&cache, "k", "1", None);
    let (plan, _) = save_bytes("k".to_string(), vec![0xc0], Timestamp::new(1_000, 0), Some(5));
    assert_eq!(plan.commands.len(), 2);
    run(&cache, plan);
    assert_eq!(get(&cache, "k").status, NOT_FOUND);
}

#[test]
fn replies_are_made_of_what_they_are_given() {
    let reply = saved_reply("k", Some("a while".to_string()));
    assert_eq!(reply.status, OK);
    assert_eq!(message_of(reply), "Key k set successfully with TTL a while");
    let reply = saved_reply("k", None);
    assert_eq!(message_of(reply), "Key k set successfully with no expiration");
    let reply = found("k".to_string(), json("[1]"));
    assert_eq!(reply.status, OK);
    assert_eq!(entry_of(reply), ("k".to_string(), json("[1]")));
}

#[test]
fn no_key_is_listed_twice() {
    let cache = test_cache(1_000);
    for i in 0..300 {
        set(&cache, &format!("k{}", i % 100), "1", None);
    }
    let (count, lines) = listing_of(load_cache_entries(&cache, "k"));
    let mut keys: Vec<String> = lines.into_iter().map(|(key, _)| key).collect();
    keys.sort();
    keys.dedup();
    assert_eq!(keys.len(), count);
}

#[test]
fn ttl_is_shown_in_words() {
    for (ttl, text) in [(0, "0ns"), (500, "500ms"), (60_000, "60s"), (1_005, "1.005s")] {
        let (_, reply) = save_bytes("k".to_string(), vec![], None, Some(ttl));
        assert_eq!(message_of(reply), format!("Key k set successfully with TTL {}", text));
    }
}

#[test]
fn value_without_ttl_does_not_expire() {
    let payload = SetPayload { value: json("[1, 2]"), ttl: None };
    let (plan, reply) = save_cache("k".to_string(), payload).unwrap();
    assert_eq!(commands_of(&plan), vec!["drop k", "store k None [146, 1, 2]"]);
    assert_eq!(message_of(reply), "Key k set successfully with no expiration");
}

#[test]
fn value_expires_its_ttl_from_now() {
    let before = Timestamp::now();
    let payload = SetPayload { value: json("null"), ttl: Some(60_000) };
    let (plan, _) = save_cache("k".to_string(), payload).unwrap();
    let after = Timestamp::now();
    match &plan.commands[1] {
        CacheCommand::Insert(_, (Some(at), bytes)) => {
            assert!(before.secs() + 60 <= at.secs() && at.secs() <= after.secs() + 60);
            assert_eq!(bytes, &vec![0xc0]);
        }
        other => panic!("{:?}", other),
    }
}

#[test]
fn ttl_beyond_the_calendar_is_refused() {
    for ttl in [u64::MAX, i64::MAX as u64, 8_210_266_876_799_000] {
        let payload = SetPayload { value: json("1"), ttl: Some(ttl) };
        assert!(matches!(save_cache("k".to_string(), payload), Err(SaveError::Deadline(_))));
    }
}

#[test]
fn last_value_saved_is_the_one_found() {
    let cache = test_cache(100);
    set(&cache, "k", "1", Some(10_000));
    set(&cache, "k", r#""two""#, None);
    set(&cache, "j", "3", None);
    assert_eq!(entry_of(get(&cache, "k")), ("k".to_string(), json(r#""two""#)));
    assert_eq!(entry_of(get(&cache, "j")), ("j".to_string(), json("3")));
}

#[test]
fn unknown_errors_are_the_fault_of_the_service() {
    let reply = find_cache_by_key("k".to_string(), Err(ApplicationError::Unknown)).unwrap();
    assert_eq!(reply.status, INTERNAL_SERVER_ERROR);
    assert_eq!(
        failure_of(reply),
        ("Unknown error occurred".to_string(), "UNKNOWN_ERROR".to_string())
    );
}

#[test]
fn missing_keys_are_named_in_the_error() {
    let error = fetched("k".to_string(), None).unwrap_err();
    assert_eq!(error.message(), "Key not found: k");
    assert_eq!(ApplicationError::Unknown.message(), "Unknown error");
    assert_eq!(fetched("k".to_string(), Some((None, vec![9]))).unwrap(), vec![9]);
}

#[test]
fn bytes_that_are_no_value_have_no_answer() {
    let reply = find_cache_by_key("k".to_string(), Ok(vec![0xc1]));
    assert!(matches!(reply, Err(CodecError::Decode)));
}

#[test]
fn every_kind_of_value_is_found_as_it_was_saved() {
    let cache = test_cache(1_000);
    for text in [
        "null", "true", "0", "-1", "127", "128", "-33", "18446744073709551615",
        "-9223372036854775808", "1.5", "-0.0", "1e300", r#""""#, r#""\u0000é😀""#,
        "[]", "{}", r#"[[], [null, {"a": []}], -5]"#, r#"{"": {"b": [1.25, "x"], "a": null}}"#,
    ] {
        set(&cache, "k", text, Some(60_000));
        assert_eq!(entry_of(get(&cache, "k")).1, json(text));
    }
}

#[test]
fn nesting_is_read_back_below_the_limit_of_the_decoder() {
    let mut value = Value::Null;
    for _ in 0..1023 {
        value = Value::Array(vec![value]);
    }
    let bytes = encode_value(&value).unwrap();
    let reply = find_cache_by_key("k".to_string(), Ok(bytes)).unwrap();
    assert_eq!(entry_of(reply).1, value);

    let bytes = encode_value(&Value::Array(vec![value])).unwrap();
    assert!(find_cache_by_key("k".to_string(), Ok(bytes)).is_err());
}

#[test]
fn wide_values_are_found_as_they_were_saved() {
    let cache = test_cache(1_000);
    let objects = format!("[{}]", vec![r#"{"a": [], "b": {}}"#; 3_000].join(","));
    let text = format!("\"{}\"", "\u{7f13}\u{5b58}".repeat(2_000));
    let numbers = format!("[{}]", vec!["144,159,-100,36765,2425393296"; 1_000].join(","));
    for value in [objects, text, numbers] {
        set(&cache, "k", &value, None);
        assert_eq!(entry_of(get(&cache, "k")).1, json(&value));
    }
}

#[test]
fn maps_that_begin_with_the_reserved_key_are_read_as_its_text() {
    let reserved = "$serde_json::private::RawValue";
    let mut map = serde_json::Map::new();
    map.insert(reserved.to_string(), json(r#""1""#));
    let bytes = encode_value(&Value::Object(map.clone())).unwrap();
    let reply = find_cache_by_key("k".to_string(), Ok(bytes)).unwrap();
    assert_eq!(entry_of(reply).1, json("1"));

    map.insert("a".to_string(), Value::Null);
    let bytes = encode_value(&Value::Object(map.clone())).unwrap();
    assert!(find_cache_by_key("k".to_string(), Ok(bytes)).is_err());

    map.insert("!".to_string(), Value::Null);
    for value in [Value::Object(map), Value::String(reserved.to_string())] {
        let bytes = encode_value(&value).unwrap();
        let reply = find_cache_by_key("k".to_string(), Ok(bytes)).unwrap();
        assert_eq!(entry_of(reply).1, value);
    }
}

#[test]
fn maps_nest_as_deep_as_arrays() {
    let mut value = Value::Bool(true);
    for _ in 0..1023 {
        let mut map = serde_json::Map::new();
        map.insert("k".to_string(), value);
        value = Value::Object(map);
    }
    let bytes = encode_value(&value).unwrap();
    let reply = find_cache_by_key("k".to_string(), Ok(bytes)).unwrap();
    assert_eq!(entry_of(reply).1, value);
}

#[test]
fn requests_that_no_endpoint_serves_are_told_so() {
    let reply = fallback("/nowhere?x=1");
    assert_eq!(reply.status, NOT_FOUND);
    assert_eq!(
        failure_of(reply),
        ("No route for /nowhere?x=1".to_string(), "ROUTE_NOT_FOUND".to_string())
    );
}
