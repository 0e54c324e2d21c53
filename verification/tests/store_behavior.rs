//! Behavior of the token store: caching, rotation, and the durable text.

use token_store::errors::StoreError;
use token_store::persist::{parse_record, serialize_record};
use token_store::record::TokenRecord;
use token_store::store::TokenStore;
use token_store::timestamp::Timestamp;

fn record(access: &str, refresh: &str, expires: u64, created: u64) -> TokenRecord {
    TokenRecord {
        access_token: access.as_bytes().to_vec(),
        refresh_token: refresh.as_bytes().to_vec(),
        expires_at: Some(Timestamp::new(expires).unwrap()),
        created_at: Timestamp::new(created).unwrap(),
    }
}

#[test]
fn round_trip_reproduces_every_field() {
    let rec = record("abc", "r1", 1700000000, 1600000000);
    let bytes = serialize_record(&rec);
    let back = parse_record(&bytes).unwrap();
    assert_eq!(back.access_token, b"abc".to_vec());
    assert_eq!(back.refresh_token, b"r1".to_vec());
    assert_eq!(back.expires_at.unwrap().secs, 1700000000);
    assert_eq!(back.created_at.secs, 1600000000);
}

#[test]
fn serialized_text_is_the_fixed_four_line_format() {
    let rec = record("abc", "r1", 1700000000, 1600000000);
    let bytes = serialize_record(&rec);
    let expected = b"TWITCH_ACCESS_TOKEN=abc\n\
TWITCH_REFRESH_TOKEN=r1\n\
TWITCH_TOKEN_EXPIRES_AT=2023-11-14T22:13:20+00:00\n\
TWITCH_TOKEN_CREATED_AT=2020-09-13T12:26:40+00:00\n";
    assert_eq!(bytes, expected.to_vec());
}

#[test]
fn initial_exchange_then_load_returns_identical_triple() {
    let rec = record("abc", "r1", 1700000000, 1600000000);
    let (store, durable) = TokenStore::init(rec);
    let loaded = store.load(Some(&durable)).unwrap();
    assert_eq!(loaded.access_token, b"abc".to_vec());
    assert_eq!(loaded.refresh_token, b"r1".to_vec());
    assert_eq!(loaded.expires_at.unwrap().secs, 1700000000);
}

#[test]
fn update_with_same_access_token_never_writes() {
    let rec = record("abc", "r1", 1700000000, 1600000000);
    let (mut store, durable) = TokenStore::init(rec);
    let newer = record("abc", "r2", 1800000000, 1700000000);
    let write = store.update(newer);
    assert!(write.is_none());
    // Durable storage still shows the old refresh token.
    let loaded = store.load(Some(&durable)).unwrap();
    assert_eq!(loaded.refresh_token, b"r1".to_vec());
    // The cache was still replaced wholesale.
    assert_eq!(store.cached.refresh_token, b"r2".to_vec());
}

#[test]
fn update_with_different_access_token_writes_full_record() {
    let rec = record("abc", "r1", 1700000000, 1600000000);
    let (mut store, _durable) = TokenStore::init(rec);
    let newer = record("xyz", "r2", 1800000000, 1700000000);
    let write = store.update(newer);
    let durable = write.expect("a rotation must be persisted");
    let loaded = store.load(Some(&durable)).unwrap();
    assert_eq!(loaded.access_token, b"xyz".to_vec());
    assert_eq!(loaded.refresh_token, b"r2".to_vec());
    assert_eq!(loaded.expires_at.unwrap().secs, 1800000000);
    assert_eq!(store.cached.access_token, b"xyz".to_vec());
}

#[test]
fn load_of_missing_storage_is_file_not_found() {
    let rec = record("abc", "r1", 1700000000, 1600000000);
    let (store, _durable) = TokenStore::init(rec);
    assert_eq!(store.load(None), Err(StoreError::FileNotFoundError));
}

#[test]
fn corrupt_timestamp_still_loads_with_epoch_fallback() {
    let text = b"TWITCH_ACCESS_TOKEN=abc\n\
TWITCH_REFRESH_TOKEN=r1\n\
TWITCH_TOKEN_EXPIRES_AT=not-a-timestamp\n\
TWITCH_TOKEN_CREATED_AT=2020-09-13T12:26:40+00:00\n";
    let rec = parse_record(&text.to_vec()).unwrap();
    assert_eq!(rec.access_token, b"abc".to_vec());
    assert_eq!(rec.expires_at.unwrap().secs, 0);
    assert_eq!(rec.created_at.secs, 1600000000);
}

#[test]
fn both_timestamps_corrupt_still_loads() {
    let text = b"TWITCH_ACCESS_TOKEN=abc\n\
TWITCH_REFRESH_TOKEN=r1\n\
TWITCH_TOKEN_EXPIRES_AT=\n\
TWITCH_TOKEN_CREATED_AT=garbage\n";
    let rec = parse_record(&text.to_vec()).unwrap();
    assert_eq!(rec.expires_at.unwrap().secs, 0);
    assert_eq!(rec.created_at.secs, 0);
}

#[test]
fn missing_line_is_a_corrupt_record() {
    let text = b"TWITCH_ACCESS_TOKEN=abc\n\
TWITCH_REFRESH_TOKEN=r1\n\
TWITCH_TOKEN_EXPIRES_AT=2023-11-14T22:13:20+00:00\n";
    assert_eq!(parse_record(&text.to_vec()), Err(StoreError::CorruptRecordError));
}

#[test]
fn wrong_key_name_is_a_corrupt_record() {
    let text = b"TWITCH_ACCESS_TOKEN=abc\n\
TWITCH_REFRESH_TOKEN=r1\n\
TWITCH_TOKEN_EXPIRES=2023-11-14T22:13:20+00:00\n\
TWITCH_TOKEN_CREATED_AT=2020-09-13T12:26:40+00:00\n";
    assert_eq!(parse_record(&text.to_vec()), Err(StoreError::CorruptRecordError));
}

#[test]
fn reordered_lines_are_a_corrupt_record() {
    let text = b"TWITCH_REFRESH_TOKEN=r1\n\
TWITCH_ACCESS_TOKEN=abc\n\
TWITCH_TOKEN_EXPIRES_AT=2023-11-14T22:13:20+00:00\n\
TWITCH_TOKEN_CREATED_AT=2020-09-13T12:26:40+00:00\n";
    assert_eq!(parse_record(&text.to_vec()), Err(StoreError::CorruptRecordError));
}

#[test]
fn empty_input_is_a_corrupt_record() {
    assert_eq!(parse_record(&Vec::new()), Err(StoreError::CorruptRecordError));
}

#[test]
fn empty_token_values_round_trip() {
    let rec = record("", "", 0, 0);
    let bytes = serialize_record(&rec);
    let back = parse_record(&bytes).unwrap();
    assert_eq!(back.access_token, b"".to_vec());
    assert_eq!(back.refresh_token, b"".to_vec());
}

#[test]
fn token_value_may_contain_the_separator() {
    let rec = record("a=b=c", "r=1", 1700000000, 1600000000);
    let bytes = serialize_record(&rec);
    let back = parse_record(&bytes).unwrap();
    assert_eq!(back.access_token, b"a=b=c".to_vec());
    assert_eq!(back.refresh_token, b"r=1".to_vec());
}
