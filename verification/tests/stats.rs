use shopware_redis_cli_helper::stats::{KeyObservation, Stats};

fn obs(bytes: u64, ttl: i64) -> KeyObservation {
    KeyObservation {
        bytes: Some(bytes),
        data_type: Some("string".into()),
        ttl: Some(ttl),
    }
}

#[test]
fn records_and_aggregates() {
    let mut s = Stats::default();
    s.record("ns1:a", "ns1", "product", &obs(100, -1));
    s.record("ns1:b", "ns1", "product", &obs(300, 60));
    assert_eq!(s.total_keys, 2);
    let stat = s.namespaces.get("ns1").unwrap().get("product").unwrap();
    assert_eq!(stat.count, 2);
    assert_eq!(stat.total_bytes, 400);
    assert_eq!(stat.avg_bytes(), 200);
    assert_eq!(stat.persistent, 1);
    assert_eq!(stat.expiring, 1);
    // Only the no-TTL key (100 bytes) counts toward unevictable memory.
    assert_eq!(stat.persistent_bytes, 100);
    assert_eq!(*stat.data_types.get("string").unwrap(), 2);
    assert_eq!(s.namespace_count("ns1"), 2);
}

#[test]
fn biggest_keys_are_bounded_and_sorted() {
    let mut s = Stats::with_biggest_cap(3);
    for (i, bytes) in [50u64, 500, 10, 999, 250, 700].iter().enumerate() {
        s.record(&format!("k{i}"), "ns", "t", &obs(*bytes, -1));
    }
    let big = s.biggest();
    // Only the cap is retained, largest first.
    assert_eq!(big.len(), 3);
    assert_eq!(big[0].bytes, 999);
    assert_eq!(big[1].bytes, 700);
    assert_eq!(big[2].bytes, 500);
}

#[test]
fn biggest_disabled_when_cap_zero() {
    let mut s = Stats::default(); // cap 0
    s.record("k", "ns", "t", &obs(123, -1));
    assert!(s.biggest().is_empty());
}

#[test]
fn leaderboard_keeps_the_largest_of_many() {
    let mut s = Stats::with_biggest_cap(50);
    let mut x: u64 = 12345;
    let mut all: Vec<(u64, String)> = Vec::new();
    for i in 0..2000 {
        x = (x * 1103515245 + 12345) % 2147483648;
        let bytes = x % 1_000_000;
        let key = format!("k{i:04}");
        s.record(&key, "ns", "t", &obs(bytes, -1));
        all.push((bytes, key));
    }
    all.sort_by(|a, b| b.0.cmp(&a.0).then(a.1.cmp(&b.1)));
    let big = s.biggest();
    assert_eq!(big.len(), 50);
    for (b, (bytes, key)) in big.iter().zip(all.iter()) {
        assert_eq!(b.bytes, *bytes);
        assert_eq!(&b.key, key);
    }
}

#[test]
fn equal_sizes_are_listed_by_name_and_do_not_displace() {
    let mut s = Stats::with_biggest_cap(2);
    s.record("b", "ns", "t", &obs(5, -1));
    s.record("a", "ns", "t", &obs(5, -1));
    s.record("c", "ns", "t", &obs(5, -1));
    let big = s.biggest();
    assert_eq!(big.iter().map(|b| b.key.as_str()).collect::<Vec<_>>(), vec!["a", "b"]);
    // A larger key takes the place of the one that comes first by name.
    s.record("d", "ns", "t", &obs(6, -1));
    let big = s.biggest();
    assert_eq!(big.iter().map(|b| b.key.as_str()).collect::<Vec<_>>(), vec!["d", "b"]);
}

#[test]
fn recording_order_does_not_matter() {
    let items = [("x", "p", 10u64, -1i64), ("y", "q", 20, 5), ("x", "q", 30, -2), ("x", "p", 1, 7)];
    let mut a = Stats::default();
    let mut b = Stats::default();
    for (ns, ty, bytes, ttl) in items.iter() {
        a.record("k", ns, ty, &obs(*bytes, *ttl));
    }
    for (ns, ty, bytes, ttl) in items.iter().rev() {
        b.record("k", ns, ty, &obs(*bytes, *ttl));
    }
    for ns in ["x", "y"] {
        assert_eq!(a.namespace_count(ns), b.namespace_count(ns));
        assert_eq!(a.namespace_bytes(ns), b.namespace_bytes(ns));
        for ty in ["p", "q"] {
            let s = a.namespaces.get(ns).unwrap().get(ty).map(|t| {
                (t.count, t.total_bytes, t.measured, t.persistent, t.expiring, t.persistent_bytes)
            });
            let t = b.namespaces.get(ns).unwrap().get(ty).map(|t| {
                (t.count, t.total_bytes, t.measured, t.persistent, t.expiring, t.persistent_bytes)
            });
            assert_eq!(s, t);
        }
    }
    assert_eq!(a.total_keys, 4);
    assert_eq!(a.namespace_count("x") + a.namespace_count("y"), a.total_keys);
    assert_eq!(a.namespace_count("z"), 0);
    assert_eq!(a.namespace_bytes("z"), 0);
}

#[test]
fn a_vanished_key_is_neither_persistent_nor_expiring() {
    let mut s = Stats::default();
    let gone = KeyObservation { bytes: None, data_type: None, ttl: Some(-2) };
    s.record("k", "ns", "t", &gone);
    s.record("k", "ns", "t", &KeyObservation::default());
    let t = s.namespaces.get("ns").unwrap().get("t").unwrap();
    assert_eq!((t.count, t.measured, t.persistent, t.expiring), (2, 0, 0, 0));
    assert_eq!(t.avg_bytes(), 0);
}

#[test]
fn room_ends_with_the_counters() {
    let mut s = Stats::default();
    assert!(s.has_room(Some(u64::MAX)));
    s.record("k", "ns", "t", &obs(u64::MAX - 1, -1));
    assert!(s.has_room(Some(1)));
    assert!(!s.has_room(Some(2)));
    assert!(s.has_room(None));
}

#[test]
fn names_are_listed_in_order() {
    let mut s = Stats::default();
    for ns in ["m", "a", "z", "ä", "b", "a"] {
        s.record("k", ns, "t", &KeyObservation::default());
    }
    let names: Vec<&str> = (0..s.namespaces.len()).map(|i| s.namespaces.at(i).name.as_str()).collect();
    assert_eq!(names, vec!["a", "b", "m", "z", "ä"]);
}

#[test]
fn either_order_keeps_the_same_sizes() {
    let sizes = |order: &[(&str, u64)]| {
        let mut s = Stats::with_biggest_cap(2);
        for (key, bytes) in [("p", 5u64), ("q", 9)].iter().chain(order) {
            s.record(key, "ns", "t", &obs(*bytes, -1));
        }
        s.biggest().iter().map(|b| b.bytes).collect::<Vec<_>>()
    };
    for (a, b) in [(7u64, 8u64), (5, 5), (9, 9), (1, 10), (12, 11)] {
        assert_eq!(sizes(&[("a", a), ("b", b)]), sizes(&[("b", b), ("a", a)]));
    }
    assert_eq!(sizes(&[("a", 12), ("b", 11)]), [12, 11]);
}

#[test]
fn listing_twice_gives_the_same_keys() {
    let mut s = Stats::with_biggest_cap(4);
    for (key, ttl) in [("a", 1i64), ("a", 2), ("b", 3), ("a", 4)] {
        s.record(key, "ns", "t", &obs(10, ttl));
    }
    assert_eq!(s.biggest(), s.biggest());
    let keys: Vec<String> = s.biggest().into_iter().map(|b| b.key).collect();
    assert_eq!(keys, ["a", "a", "a", "b"]);
}

#[test]
fn namespace_count_is_the_number_of_recorded_keys() {
    let mut s = Stats::default();
    let none = KeyObservation::default();
    for (ns, ty) in [("a", "x"), ("b", "x"), ("a", "y"), ("a", "x")] {
        s.record("k", ns, ty, &none);
    }
    assert_eq!((s.namespace_count("a"), s.namespace_count("b"), s.namespace_count("c")), (3, 1, 0));
    assert_eq!(s.total_keys, 4);
    assert!(s.namespaces.get("c").is_none());
}

#[test]
fn an_unmeasured_key_leaves_the_biggest_keys_alone() {
    let mut s = Stats::with_biggest_cap(3);
    for (key, ttl) in [("a", 1i64), ("a", 2), ("b", 3)] {
        s.record(key, "ns", "t", &obs(10, ttl));
    }
    let before = s.biggest();
    s.record("c", "ns", "t", &KeyObservation::default());
    assert_eq!(s.biggest(), before);
    assert_eq!(s.total_keys, 4);
}
