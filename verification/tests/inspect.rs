use shopware_redis_cli_helper::inspect::{
    coll_cap, count_command, escape_key, match_pattern_for, probe_commands, read_command, reading, report_error,
    ttl_from, ttl_with_expiry, ttl_with_moment, unescape_key, Inbox, KeyValue, Listing, Reading, Request,
    Scored, COLLECTION_CAP, KEY_SAMPLE_CAP,
};
use shopware_redis_cli_helper::grouping::parse_key;
use shopware_redis_cli_helper::moment::{expiry_instant, LAST_SECOND};
use shopware_redis_cli_helper::scanner::Step;
use shopware_redis_cli_helper::value::Encoding;
use std::io::Write;

#[test]
fn ttl_with_expiry_formats_each_case() {
    assert_eq!(ttl_with_expiry(Some(-1)), "persistent");
    assert_eq!(ttl_with_expiry(Some(-2)), "-");
    assert_eq!(ttl_with_expiry(None), "-");
    let s = ttl_with_expiry(Some(3600));
    // relative seconds + an absolute date in parentheses
    assert!(s.starts_with("3600s (expires "), "got: {s}");
    assert!(s.ends_with(')'));
    // the date looks like YYYY-MM-DD HH:MM:SS
    assert!(
        s.contains("-") && s.matches(':').count() >= 2,
        "expected a timestamp: {s}"
    );
}

#[test]
fn expiry_moves_with_the_ttl() {
    let a = ttl_with_expiry(Some(0));
    let b = ttl_with_expiry(Some(1_000_000_000));
    let year = |s: &str| s[s.find("expires ").unwrap() + 8..][..4].parse::<u32>().unwrap();
    assert!(year(&b) - year(&a) >= 31);
    assert!(year(&b) - year(&a) <= 32);
}

#[test]
fn a_moment_beyond_the_calendar_has_no_date() {
    assert_eq!(ttl_with_expiry(Some(i64::MAX)), format!("{}s", i64::MAX));
    assert_eq!(ttl_with_expiry(Some(9_000_000_000_000)), "9000000000000s");
    assert_eq!(ttl_with_moment(Some(5), &Some("X".to_string())), "5s (expires X)");
    assert_eq!(ttl_with_moment(Some(5), &None), "5s");
}

#[test]
fn pattern_for_plain_type() {
    assert_eq!(
        match_pattern_for("WpDcVyo5fP", "product-detail-route"),
        "WpDcVyo5fP:product-detail-route*"
    );
}

#[test]
fn pattern_restores_tag_control_bytes() {
    let p = match_pattern_for("ns", "\\x01tags\\x01product");
    assert_eq!(p, "ns:\u{0001}tags\u{0001}product*");
}

#[test]
fn pattern_for_hash_bucket_drops_marker() {
    assert_eq!(match_pattern_for("ns", "(hash)"), "ns:*");
    assert_eq!(match_pattern_for("ns", "(no-type)"), "ns:*");
}

#[test]
fn pattern_for_tagged_hash_bucket_keeps_the_marker() {
    assert_eq!(match_pattern_for("ns", "\\x01tags\\x01(hash)"), "ns:\u{1}tags\u{1}*");
    assert_eq!(match_pattern_for("ns", ""), "ns:*");
}

#[test]
fn escape_unescape_roundtrip() {
    let raw = b"ns:\x01tags\x01product".to_vec();
    let esc = escape_key(&raw);
    assert_eq!(esc, "ns:\\x01tags\\x01product");
    assert_eq!(unescape_key(&esc), raw);
}

#[test]
fn escaping_is_undone_for_awkward_keys() {
    for raw in ["", "\u{1}", "\\\u{1}", "\\x\u{1}01", "\\x0\u{1}1", "ä\u{1}🏷", "\u{1}\u{1}x01"] {
        let bytes = raw.as_bytes().to_vec();
        assert_eq!(unescape_key(&escape_key(&bytes)), bytes, "{raw:?}");
    }
    // The readable form itself is taken for the marker.
    assert_eq!(unescape_key(&escape_key(&b"\\x01".to_vec())), b"\x01".to_vec());
    // Invalid UTF-8 is shown with replacement characters.
    assert_eq!(escape_key(&vec![b'a', 0xff]), "a\u{fffd}");
}

#[test]
fn listing_stops_at_the_sample_cap() {
    let mut l = Listing::new("ns", "t");
    assert_eq!(l.command(), vec!["SCAN", "0", "MATCH", "ns:t*", "COUNT", "500"]);
    let batch: Vec<Vec<u8>> = (0..700).map(|i| format!("k{i:04}").into_bytes()).collect();
    assert_eq!(l.take_in(5, &batch), Step::More);
    assert_eq!(l.command()[1], "5");
    assert!(!l.capped);
    assert_eq!(l.take_in(9, &batch), Step::Done);
    assert!(l.capped);
    let list = l.finish();
    assert_eq!(list.keys.len(), KEY_SAMPLE_CAP);
    assert!(list.keys.windows(2).all(|w| w[0] <= w[1]));
    assert!(list.capped && list.error.is_none());
}

#[test]
fn a_full_listing_is_capped_only_if_more_keys_exist() {
    let batch: Vec<Vec<u8>> =
        (0..KEY_SAMPLE_CAP).map(|i| format!("k{i:04}").into_bytes()).collect();
    let mut l = Listing::new("ns", "t");
    assert_eq!(l.take_in(0, &batch), Step::Done);
    let list = l.finish();
    assert_eq!(list.keys.len(), KEY_SAMPLE_CAP);
    assert!(!list.capped);

    let mut l = Listing::new("ns", "t");
    assert_eq!(l.take_in(7, &batch), Step::More);
    assert!(!l.capped);
    assert_eq!(l.take_in(8, &vec![]), Step::More);
    assert_eq!(l.take_in(9, &vec![b"one-more".to_vec()]), Step::Done);
    let list = l.finish();
    assert_eq!(list.keys.len(), KEY_SAMPLE_CAP);
    assert!(list.capped && !list.keys.contains(&"one-more".to_string()));
}

#[test]
fn listing_ends_with_the_keyspace() {
    let mut l = Listing::new("ns", "t");
    assert_eq!(l.take_in(0, &vec![b"b".to_vec(), b"a\x01".to_vec()]), Step::Done);
    let list = l.finish();
    assert_eq!(list.keys, vec!["a\\x01", "b"]);
    assert!(!list.capped);
    let mut l = Listing::new("ns", "t");
    l.take_in(3, &vec![b"b".to_vec(), b"a".to_vec()]);
    let failed = l.fail("broken".to_string());
    assert_eq!(failed.keys, vec!["b", "a"]);
    assert_eq!(failed.error.as_deref(), Some("broken"));
}

#[test]
fn expiry_is_shown_at_the_given_offset() {
    assert_eq!(ttl_from(Some(3600), 0, 0), "3600s (expires 1970-01-01 01:00:00)");
    assert_eq!(ttl_from(Some(0), 86_400, 3600), "0s (expires 1970-01-02 01:00:00)");
    assert_eq!(ttl_from(Some(1), 0, -3600), "1s (expires 1969-12-31 23:00:01)");
    assert_eq!(ttl_from(Some(-1), 0, 0), "persistent");
    assert_eq!(ttl_from(Some(-2), 0, 0), "-");
    assert_eq!(ttl_from(None, 0, 0), "-");
    assert!(ttl_from(Some(LAST_SECOND), 0, 86_399).contains("expires "));
    assert_eq!(ttl_from(Some(LAST_SECOND), 1, 0), format!("{LAST_SECOND}s"));
    assert_eq!(expiry_instant(5, 7), Some(12));
    assert_eq!(expiry_instant(LAST_SECOND, 1), None);
}

#[test]
fn commands_follow_the_type() {
    let k = b"k\x01".to_vec();
    assert_eq!(reading("string"), Reading::Bytes);
    assert_eq!(reading("set"), Reading::Members);
    assert_eq!(reading("list"), Reading::Items);
    assert_eq!(reading("hash"), Reading::Fields);
    assert_eq!(reading("zset"), Reading::Scores);
    assert_eq!(reading("none"), Reading::Missing);
    assert_eq!(reading("stream"), Reading::Unsupported);
    assert_eq!(read_command(Reading::Bytes, &k, 20_000), vec![b"GET".to_vec(), k.clone()]);
    assert_eq!(
        read_command(Reading::Items, &k, 20_000),
        vec![b"LRANGE".to_vec(), k.clone(), b"0".to_vec(), b"624".to_vec()]
    );
    assert_eq!(
        read_command(Reading::Scores, &k, 0),
        vec![
            b"ZRANGE".to_vec(),
            k.clone(),
            b"0".to_vec(),
            b"499".to_vec(),
            b"WITHSCORES".to_vec()
        ]
    );
    assert!(read_command(Reading::Missing, &k, 0).is_empty());
    assert_eq!(
        probe_commands(&k),
        vec![
            vec![b"TYPE".to_vec(), k.clone()],
            vec![b"TTL".to_vec(), k.clone()],
            vec![b"MEMORY".to_vec(), b"USAGE".to_vec(), k.clone()]
        ]
    );
    assert_eq!(count_command(Reading::Items, &k), vec![b"LLEN".to_vec(), k.clone()]);
    assert_eq!(count_command(Reading::Scores, &k), vec![b"ZCARD".to_vec(), k.clone()]);
    assert!(count_command(Reading::Members, &k).is_empty());
    assert_eq!(coll_cap(0), COLLECTION_CAP);
    assert_eq!(coll_cap(64_000), 2000);
}

fn fresh(redis_type: &str) -> KeyValue {
    KeyValue::new("k", redis_type, Some(5), Some(9))
}

#[test]
fn unreadable_values_carry_their_error() {
    assert_eq!(
        fresh("none").error.as_deref(),
        Some("key does not exist (it may have expired)")
    );
    assert_eq!(fresh("stream").error.as_deref(), Some("unsupported type: stream"));
    assert!(fresh("string").error.is_none());
}

#[test]
fn collections_are_listed_and_truncated() {
    let mut v = fresh("set");
    v.take_members(&vec![b"member-a".to_vec(), b"\x01b".to_vec()], 20_000);
    assert_eq!(v.elements, Some(2));
    assert_eq!(v.body, "member-a\n\\x01b");

    let many: Vec<Vec<u8>> = (0..502).map(|i| format!("{i}").into_bytes()).collect();
    let mut v = fresh("set");
    v.take_members(&many, 0);
    assert_eq!(v.elements, Some(502));
    assert!(v.body.ends_with("\n499\n… 2 more (truncated)"));

    let mut v = fresh("hash");
    v.take_fields(&vec![b"f".to_vec(), b"1".to_vec(), b"g".to_vec()], 0);
    assert_eq!(v.elements, Some(1));
    assert_eq!(v.body, "f = 1\ng = ");

    let flat: Vec<Vec<u8>> = (0..1006).map(|i| format!("{i}").into_bytes()).collect();
    let mut v = fresh("hash");
    v.take_fields(&flat, 0);
    assert_eq!(v.elements, Some(503));
    assert!(v.body.ends_with("\n998 = 999\n… 3 more fields (truncated)"));

    let mut v = fresh("list");
    v.take_items(&vec![b"a".to_vec(), b"b".to_vec()], 2, 0);
    assert_eq!(v.elements, Some(2));
    assert_eq!(v.body, "a\nb");
    let mut v = fresh("list");
    v.take_items(&many[..500].to_vec(), 70_000, 0);
    assert_eq!(v.elements, Some(70_000));
    assert!(v.body.ends_with("\n499\n… 69500 more (truncated)"));

    let scored = vec![
        Scored { member: b"a".to_vec(), score: "1.5".to_string() },
        Scored { member: b"b".to_vec(), score: "2".to_string() },
    ];
    let mut v = fresh("zset");
    v.take_scores(&scored, 2);
    assert_eq!(v.elements, Some(2));
    assert_eq!(v.body, "1.5  a\n2  b");
    v.take_scores(&scored, 9);
    assert_eq!(v.elements, Some(9));
    assert_eq!(v.body, "1.5  a\n2  b\n… 7 more (truncated)");

    v.take_error("gone".to_string());
    assert_eq!(v.error.as_deref(), Some("gone"));
}

#[test]
fn gzip_string_is_decoded() {
    let mut e = flate2::write::GzEncoder::new(Vec::new(), flate2::Compression::default());
    e.write_all(b"{\"compressed\":true}").unwrap();
    let gz = e.finish().unwrap();
    let mut v = fresh("string");
    v.take_bytes(&gz, 20_000);
    assert_eq!(v.encoding, Some(Encoding::Gzip));
    assert_eq!(v.stream_offset, Some(0));
    assert_eq!(v.body, "{\"compressed\":true}");
    assert!(!v.is_binary);
}

#[test]
fn embedded_zlib_stream_is_found() {
    // Binary header + serialized tag envelope + an embedded zlib stream.
    let mut raw = vec![0x9d, 0, 0, 0, 0, 0, 0, 0, 0];
    raw.extend_from_slice(b"a:1:{i:0;s:13:\"system-config\";}s:60:\"");
    let at = raw.len();
    let inner = b"a:2:{s:4:\"core\";a:1:{s:5:\"email\";s:9:\"a@shop.de\";}}";
    let mut e = flate2::write::ZlibEncoder::new(Vec::new(), flate2::Compression::default());
    e.write_all(inner).unwrap();
    raw.extend(e.finish().unwrap());
    let mut v = fresh("string");
    v.take_bytes(&raw, 20_000);
    assert_eq!(v.encoding, Some(Encoding::Zlib));
    assert_eq!(v.stream_offset, Some(at));
    assert!(!v.is_binary, "inner config is text");
    assert!(v.body.contains("email") && v.body.contains("a@shop.de"));
}

#[test]
fn binary_string_has_hex_and_text() {
    let mut payload = b"ca:2:{i:0;s:5:\"hello\";}".to_vec();
    payload.extend_from_slice(&[0xff, 0xfe, 0x00, 0x9d]);
    let mut v = fresh("string");
    v.take_bytes(&payload, 20_000);
    assert!(v.is_binary, "should be flagged binary");
    let hex = v.hex.expect("hex view");
    assert!(hex.contains("ff fe 00 9d"));
    assert!(v.body.contains("ca:2:") && v.body.contains("hello"));
}

#[test]
fn inbox_counts_results() {
    let mut i = Inbox::default();
    i.begin();
    assert!(i.loading);
    i.put_list(Listing::new("n", "t").finish());
    assert!(!i.loading);
    assert_eq!(i.generation, 1);
    i.put_value(fresh("string"));
    assert_eq!(i.generation, 2);
    assert!(i.key_list.is_some() && i.key_value.is_some());
}

#[test]
fn connection_errors_reach_the_right_slot() {
    let mut i = Inbox::new();
    i.begin();
    let req = Request::ListKeys { namespace: "n".to_string(), key_type: "t".to_string() };
    report_error(&mut i, &req, "down".to_string());
    let l = i.key_list.clone().unwrap();
    assert_eq!((l.namespace.as_str(), l.key_type.as_str()), ("n", "t"));
    assert_eq!(l.error.as_deref(), Some("down"));
    assert!(l.keys.is_empty() && !l.capped);
    assert!(i.key_value.is_none());
    // Only the slot has changed.
    assert!(i.loading);
    assert_eq!((i.generation, i.list_generation, i.value_generation), (0, 0, 0));
    i.close(req.slot());
    assert!(!i.loading);
    assert_eq!((i.generation, i.list_generation, i.value_generation), (1, 1, 0));

    let req = Request::GetValue { key: "k".to_string() };
    report_error(&mut i, &req, "down".to_string());
    let v = i.key_value.clone().unwrap();
    assert_eq!((v.key.as_str(), v.redis_type.as_str()), ("k", "unknown"));
    assert_eq!(v.error.as_deref(), Some("down"));
    i.close(req.slot());
    assert_eq!((i.generation, i.list_generation, i.value_generation), (2, 1, 2));
}

#[test]
fn keys_are_found_by_the_pattern_of_their_type() {
    let h = "0f483ff8ad7735e5e2dc0f44728d7bdb";
    for key in [
        "ns:product".to_string(),
        format!("ns:cached-product-{h}-{h}"),
        format!("ns:\u{1}tags\u{1}product-{h}"),
        format!("ns:\u{1}tags\u{1}{h}"),
        format!("ns:{h}"),
        "ns:".to_string(),
        "ns:a\u{1}-b(hash)".to_string(),
        format!("ns:-{h}"),
    ] {
        let p = parse_key(&key, 10);
        let pattern = match_pattern_for(&p.namespace, &p.key_type);
        let stem = pattern.strip_suffix('*').unwrap();
        assert!(key.starts_with(stem), "{key:?} is not found by {pattern:?}");
    }
}
