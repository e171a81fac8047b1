use shopware_redis_cli_helper::grouping::parse_key;
use shopware_redis_cli_helper::scanner::{
    enrichment, observations, scan_command, Fault, Reply, Scan, ScanOptions, Step,
};
use shopware_redis_cli_helper::stats::{KeyObservation, Stats};

fn opts(memory: bool, types: bool, ttl: bool) -> ScanOptions {
    ScanOptions {
        count: 1000,
        namespace_len: 10,
        limit: 0,
        want_memory: memory,
        want_types: types,
        want_ttl: ttl,
        biggest: 2,
    }
}

fn names(v: &[&str]) -> Vec<String> {
    v.iter().map(|s| s.to_string()).collect()
}

#[test]
fn scan_command_has_pattern_only_when_given() {
    assert_eq!(scan_command(3, 10, None), names(&["SCAN", "3", "COUNT", "10"]));
    assert_eq!(
        scan_command(0, 10, Some("a*")),
        names(&["SCAN", "0", "COUNT", "10", "MATCH", "a*"])
    );
}

#[test]
fn enrichment_asks_per_key_in_order() {
    let keys = names(&["a", "b"]);
    assert!(enrichment(&keys, &opts(false, false, false)).is_empty());
    assert_eq!(
        enrichment(&keys, &opts(true, true, true)),
        vec![
            names(&["MEMORY", "USAGE", "a"]),
            names(&["TYPE", "a"]),
            names(&["TTL", "a"]),
            names(&["MEMORY", "USAGE", "b"]),
            names(&["TYPE", "b"]),
            names(&["TTL", "b"]),
        ]
    );
    assert_eq!(
        enrichment(&keys, &opts(false, true, false)),
        vec![names(&["TYPE", "a"]), names(&["TYPE", "b"])]
    );
}

#[test]
fn replies_are_read_in_command_order() {
    let replies = vec![
        Reply::Int(100),
        Reply::SimpleString("string".to_string()),
        Reply::Int(-1),
        Reply::Other,
        Reply::BulkString(b"set".to_vec()),
        Reply::Other,
        Reply::Int(-5),
    ];
    let o = observations(4, &replies, &opts(true, true, true));
    assert_eq!(o.len(), 4);
    assert_eq!((o[0].bytes, o[0].data_type.as_deref(), o[0].ttl), (Some(100), Some("string"), Some(-1)));
    assert_eq!((o[1].bytes, o[1].data_type.as_deref(), o[1].ttl), (None, Some("set"), None));
    // A negative size and missing replies leave the fields empty.
    assert_eq!((o[2].bytes, o[2].data_type.as_deref(), o[2].ttl), (None, None, None));
    assert_eq!((o[3].bytes, o[3].data_type.as_deref(), o[3].ttl), (None, None, None));

    let o = observations(2, &vec![Reply::Int(5), Reply::Int(-2)], &opts(false, false, true));
    assert_eq!((o[0].ttl, o[1].ttl), (Some(5), Some(-2)));
    let o = observations(1, &vec![Reply::BulkString(vec![b'a', 0xff])], &opts(false, true, false));
    assert_eq!(o[0].data_type.as_deref(), Some("a\u{fffd}"));
    assert_eq!(observations(3, &vec![], &opts(false, false, false)).len(), 3);
}

fn sized(bytes: u64) -> KeyObservation {
    KeyObservation { bytes: Some(bytes), data_type: None, ttl: Some(-1) }
}

#[test]
fn scan_counts_batches_until_the_cursor_returns() {
    let mut s = Scan::new(opts(true, false, true));
    let keys = names(&["ns:product-0f483ff8ad7735e5", "ns:product-1f483ff8ad7735e5", "ns:cart"]);
    let step = s.take_in(7, &keys, &vec![sized(10), sized(30), sized(20)]);
    assert_eq!(step, Ok(Step::More));
    assert_eq!(s.cursor, 7);
    assert_eq!(s.stats.total_keys, 3);
    assert_eq!(s.stats.namespaces.get("ns").unwrap().get("product").unwrap().count, 2);
    assert_eq!(s.take_in(0, &vec![], &vec![]), Ok(Step::Done));
    let big: Vec<u64> = s.stats.biggest().iter().map(|b| b.bytes).collect();
    assert_eq!(big, vec![30, 20]);
}

#[test]
fn scan_stops_at_the_limit() {
    let mut o = opts(false, false, false);
    o.limit = 2;
    let mut s = Scan::new(o);
    let one = vec![KeyObservation::default()];
    assert_eq!(s.take_in(1, &names(&["a:b"]), &one), Ok(Step::More));
    assert_eq!(s.take_in(2, &names(&["a:c"]), &one), Ok(Step::Done));
}

#[test]
fn unrecordable_keys_stop_the_scan() {
    let mut o = opts(true, false, false);
    o.namespace_len = 1;
    let mut s = Scan::new(o);
    let r = s.take_in(1, &names(&["a:b", "ää", "c:d"]), &vec![sized(1), sized(1), sized(1)]);
    assert_eq!(r, Err(Fault::SplitsCharacter));
    assert_eq!(s.stats.total_keys, 1);
    assert_eq!(s.cursor, 0);
    let r = s.take_in(1, &names(&["a:b"]), &vec![sized(u64::MAX)]);
    assert_eq!(r, Err(Fault::Overflow));
}

#[test]
fn a_scan_records_its_keys_in_order() {
    let keys = names(&["n:a", "n:b", "m:c", "n:d"]);
    let sizes = [5u64, 5, 5, 9];
    let mut direct = Stats::with_biggest_cap(2);
    for (key, bytes) in keys.iter().zip(sizes) {
        let p = parse_key(key, 10);
        direct.record(key, &p.namespace, &p.key_type, &sized(bytes));
    }
    // However the keys are spread over the batches.
    for split in 0..=4 {
        let mut s = Scan::new(opts(true, false, true));
        let obs = |part: &[u64]| part.iter().map(|b| sized(*b)).collect::<Vec<_>>();
        s.take_in(3, &keys[..split].to_vec(), &obs(&sizes[..split])).unwrap();
        let last = s.take_in(0, &keys[split..].to_vec(), &obs(&sizes[split..]));
        assert_eq!(last, Ok(Step::Done));
        assert_eq!(s.stats.biggest(), direct.biggest());
        assert_eq!(s.stats.total_keys, 4);
        assert_eq!(s.stats.namespace_count("n"), 3);
    }
    // The newcomer of equal size was turned away; the larger one replaced the
    // smaller of the two by name.
    let kept: Vec<String> = direct.biggest().into_iter().map(|b| b.key).collect();
    assert_eq!(kept, ["n:d", "n:b"]);
}
