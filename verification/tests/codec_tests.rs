use grep_cache::cache::cache_key;
use grep_cache::cache::decode_total;
use grep_cache::cache::encode_identifier;
use grep_cache::cache::u64_to_decimal;
use grep_cache::preview::cached_result;
use grep_cache::preview::read_preview;

#[test]
fn decode_valid_identifier() {
    assert_eq!(decode_total("abc123_542"), Some(542));
}

#[test]
fn decode_no_delimiter_is_miss() {
    assert_eq!(decode_total("abc123"), None);
}

#[test]
fn decode_two_delimiters_is_miss() {
    assert_eq!(decode_total("abc_123_542"), None);
}

#[test]
fn decode_non_numeric_suffix_is_miss() {
    assert_eq!(decode_total("abc123_54x"), None);
}

#[test]
fn decode_empty_suffix_is_miss() {
    assert_eq!(decode_total("abc123_"), None);
}

#[test]
fn decode_empty_prefix() {
    assert_eq!(decode_total("_7"), Some(7));
}

#[test]
fn decode_zero_total() {
    assert_eq!(decode_total("k_0"), Some(0));
}

#[test]
fn decode_largest_total() {
    assert_eq!(decode_total("k_18446744073709551615"), Some(u64::MAX));
}

#[test]
fn decode_overflowing_total_is_miss() {
    assert_eq!(decode_total("k_18446744073709551616"), None);
}

#[test]
fn decode_empty_identifier_is_miss() {
    assert_eq!(decode_total(""), None);
}

#[test]
fn decimal_rendering() {
    assert_eq!(u64_to_decimal(0), "0");
    assert_eq!(u64_to_decimal(7), "7");
    assert_eq!(u64_to_decimal(10), "10");
    assert_eq!(u64_to_decimal(542), "542");
    assert_eq!(u64_to_decimal(u64::MAX), "18446744073709551615");
}

#[test]
fn encode_builds_key_total_identifier() {
    assert_eq!(encode_identifier("abc123", 542), "abc123_542");
}

#[test]
fn encode_then_decode_recovers_total() {
    let id = encode_identifier("abc123", 542);
    assert_eq!(decode_total(&id), Some(542));
    let id = encode_identifier("", 0);
    assert_eq!(decode_total(&id), Some(0));
}

#[test]
fn identifier_from_derived_key_decodes() {
    let args: Vec<String> = vec!["rg".to_string(), "--smart-case".to_string(), "''".to_string()];
    let key = cache_key(&args, "/work/tree");
    let id = encode_identifier(&key, 42);
    assert_eq!(decode_total(&id), Some(42));
}

#[test]
fn cache_key_is_deterministic() {
    let args: Vec<String> = vec!["rg".to_string(), "--column".to_string(), "''".to_string()];
    let again: Vec<String> = vec!["rg".to_string(), "--column".to_string(), "''".to_string()];
    let k1 = cache_key(&args, "/some/dir");
    let k2 = cache_key(&again, "/some/dir");
    assert_eq!(k1, k2);
}

#[test]
fn cache_key_distinguishes_directories() {
    let args: Vec<String> = vec!["rg".to_string(), "--column".to_string()];
    let k1 = cache_key(&args, "/some/dir");
    let k2 = cache_key(&args, "/other/dir");
    assert_ne!(k1, k2);
}

#[test]
fn cache_key_distinguishes_argument_boundaries() {
    let one: Vec<String> = vec!["ab".to_string(), "c".to_string()];
    let other: Vec<String> = vec!["a".to_string(), "bc".to_string()];
    assert_ne!(cache_key(&one, "/d"), cache_key(&other, "/d"));
}

#[test]
fn cache_key_has_no_delimiter() {
    let args: Vec<String> = vec!["rg".to_string(), "a_b".to_string()];
    let key = cache_key(&args, "/some_dir");
    assert!(!key.contains('_'));
    assert!(key.chars().all(|c| c.is_ascii_digit()));
}

#[test]
fn preview_stops_at_bound() {
    let body: Vec<String> = (0..10).map(|i| format!("line {}", i)).collect();
    let p = read_preview(&body, 3);
    assert_eq!(p, vec!["line 0".to_string(), "line 1".to_string(), "line 2".to_string()]);
}

#[test]
fn preview_stops_at_end_of_body() {
    let body: Vec<String> = vec!["a".to_string(), "b".to_string()];
    let p = read_preview(&body, 100);
    assert_eq!(p, body);
}

#[test]
fn preview_of_zero_bound_is_empty() {
    let body: Vec<String> = vec!["a".to_string()];
    assert!(read_preview(&body, 0).is_empty());
}

#[test]
fn preview_ignores_lines_beyond_bound() {
    let short: Vec<String> = (0..100).map(|i| format!("l{}", i)).collect();
    let mut long = short.clone();
    long.extend((100..10_000).map(|i| format!("l{}", i)));
    assert_eq!(read_preview(&short, 100), read_preview(&long, 100));
}

#[test]
fn cached_result_serves_bounded_preview() {
    let body: Vec<String> = (0..542).map(|i| format!("match {}", i)).collect();
    let r = cached_result("abc123_542", Some(&body), 100).unwrap();
    assert_eq!(r.total, 542);
    assert_eq!(r.lines.len(), 100);
    assert_eq!(r.lines[0], "match 0");
    assert_eq!(r.lines[99], "match 99");
    assert!(r.using_cache);
}

#[test]
fn cached_result_without_body_keeps_total() {
    let r = cached_result("abc123_542", None, 100).unwrap();
    assert_eq!(r.total, 542);
    assert!(r.lines.is_empty());
    assert!(r.using_cache);
}

#[test]
fn cached_result_rejects_unparsable_identifier() {
    let body: Vec<String> = vec!["a".to_string()];
    assert!(cached_result("abc123", Some(&body), 100).is_none());
}
