use shopware_redis_cli_helper::serverinfo::parse_info;

const SAMPLE: &str = "\
# Server
redis_version:7.2.4
uptime_in_seconds:263467
# Clients
connected_clients:4
# Memory
used_memory:6073440
used_memory_human:5.79M
maxmemory:104857600
maxmemory_policy:allkeys-lru
mem_fragmentation_ratio:3.22
# Stats
evicted_keys:128
";

#[test]
fn parses_relevant_fields() {
    let i = parse_info(SAMPLE);
    assert_eq!(i.redis_version.as_deref(), Some("7.2.4"));
    assert_eq!(i.used_memory, Some(6_073_440));
    assert_eq!(i.maxmemory, Some(104_857_600));
    assert_eq!(i.maxmemory_policy.as_deref(), Some("allkeys-lru"));
    assert_eq!(i.evicted_keys, Some(128));
    assert_eq!(i.connected_clients, Some(4));
    let ratio: Option<f64> = i.mem_fragmentation_ratio.and_then(|t| t.parse().ok());
    assert_eq!(ratio, Some(3.22));
}

#[test]
fn memory_fullness_computed_when_capped() {
    let i = parse_info(SAMPLE);
    let x = i.memory_fullness().unwrap();
    let pct = x.mantissa as f64 * 2f64.powi(x.exponent);
    // 6073440 / 104857600 ≈ 0.0579
    assert!((pct - 0.0579).abs() < 0.001, "got {pct}");
    assert_eq!(pct, 6073440f64 / 104857600f64);
}

#[test]
fn memory_fullness_none_when_unlimited() {
    let i = parse_info("used_memory:1000\nmaxmemory:0\n");
    assert!(i.memory_fullness().is_none());
}

#[test]
fn ignores_section_headers_and_blanks() {
    let i = parse_info("# Server\n\nredis_version:1.2.3\n\n");
    assert_eq!(i.redis_version.as_deref(), Some("1.2.3"));
}

#[test]
fn fullness_is_at_most_one() {
    let i = parse_info("used_memory:30\nmaxmemory:10");
    let x = i.memory_fullness().unwrap();
    assert_eq!(x.mantissa as f64 * 2f64.powi(x.exponent), 1.0);
}

#[test]
fn blanks_and_carriage_returns_around_lines_do_not_count() {
    let i = parse_info("  used_memory:5 \r\nmaxmemory:7\r\n\u{a0}evicted_keys:+9\u{2003}\n");
    assert_eq!(i.used_memory, Some(5));
    assert_eq!(i.maxmemory, Some(7));
    assert_eq!(i.evicted_keys, Some(9));
}

#[test]
fn later_lines_win_and_bad_numbers_are_none() {
    let i = parse_info("used_memory:5\nused_memory:x\nconnected_clients:1\nconnected_clients:2");
    assert_eq!(i.used_memory, None);
    assert_eq!(i.connected_clients, Some(2));
    let i = parse_info("used_memory:18446744073709551615\nmaxmemory:18446744073709551616");
    assert_eq!(i.used_memory, Some(u64::MAX));
    assert_eq!(i.maxmemory, None);
    let i = parse_info("used_memory:\nmaxmemory:-1\nredis_version:a:b");
    assert_eq!(i.used_memory, None);
    assert_eq!(i.maxmemory, None);
    assert_eq!(i.redis_version.as_deref(), Some("a:b"));
    assert!(i.db_keys.is_none());
}
