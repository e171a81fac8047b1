use shopware_redis_cli_helper::report::{
    data_types_str, md_escape, md_key, namespace_rows, render, render_markdown, ttl_label,
    ReportOptions,
};
use shopware_redis_cli_helper::stats::{KeyObservation, Stats};

fn obs(bytes: u64, kind: &str, ttl: i64) -> KeyObservation {
    KeyObservation { bytes: Some(bytes), data_type: Some(kind.to_string()), ttl: Some(ttl) }
}

fn sample() -> Stats {
    let mut s = Stats::with_biggest_cap(2);
    s.record("a:p1", "a", "p", &obs(1500, "string", -1));
    s.record("a:p2", "a", "p", &obs(500, "string", 60));
    s.record("a:p3", "a", "p", &obs(100, "hash", 60));
    s.record("a:q1", "a", "q|r", &obs(10, "set", -1));
    s.record("b:x", "b", "x", &obs(5, "list", -2));
    s
}

fn all(top: usize, biggest: usize) -> ReportOptions {
    ReportOptions { show_memory: true, show_types: true, show_ttl: true, top, biggest }
}

fn counts(top: usize) -> ReportOptions {
    ReportOptions { show_memory: false, show_types: false, show_ttl: false, top, biggest: 0 }
}

#[test]
fn labels() {
    assert_eq!(ttl_label(Some(-1)), "persistent");
    assert_eq!(ttl_label(Some(0)), "0s");
    assert_eq!(ttl_label(Some(3597)), "3597s");
    assert_eq!(ttl_label(Some(-2)), "-");
    assert_eq!(ttl_label(None), "-");
    assert_eq!(md_escape("a|b\nc\rd"), "a\\|b c d");
    assert_eq!(md_key("x|"), "`x\\|`");
    assert_eq!(md_escape("a\tb\u{1}c\u{7f}d\u{9f}é"), "a\\x09b\\x01c\\x7fd\\x9fé");
    assert_eq!(md_key("n:\u{1}tags\u{1}x"), "`n:\\x01tags\\x01x`");
}

#[test]
fn markdown_with_everything() {
    let md = render_markdown(&sample(), &all(0, 2));
    let want = "# Redis Insights Report\n\n\
        - **Total keys scanned:** 5\n\
        - **Namespaces:** 2\n\
        - **Measured memory:** 2.12 kB\n\n\
        ## Namespace summary\n\n\
        | Namespace | Keys | % | Memory |\n|---|--:|--:|--:|\n\
        | a | 4 | 80.0% | 2.11 kB |\n\
        | b | 1 | 20.0% | 5 B |\n\n\
        ## `a` — 4 keys, 2 types\n\n\
        | Type | Keys | % | Total mem | Avg mem | Data types | Persist/Expire |\n\
        |---|--:|--:|--:|--:|---|---|\n\
        | `p` | 3 | 75.0% | 2.10 kB | 700 B | string:2 hash:1 | 1/2 |\n\
        | `q\\|r` | 1 | 25.0% | 10 B | 10 B | set:1 | 1/0 |\n\n\
        ## `b` — 1 keys, 1 types\n\n\
        | Type | Keys | % | Total mem | Avg mem | Data types | Persist/Expire |\n\
        |---|--:|--:|--:|--:|---|---|\n\
        | `x` | 1 | 100.0% | 5 B | 5 B | list:1 | 0/0 |\n\n\
        ## Biggest 2 keys\n\n\
        | # | Size | Type | TTL | Key |\n|--:|--:|---|---|---|\n\
        | 1 | 1.50 kB | string | persistent | `a:p1` |\n\
        | 2 | 500 B | string | 60s | `a:p2` |\n\n";
    assert_eq!(md, want);
}

#[test]
fn markdown_counts_only_and_shortened() {
    let md = render_markdown(&sample(), &counts(1));
    assert!(md.contains("| Namespace | Keys | % |\n|---|--:|--:|\n| a | 4 | 80.0% |\n"));
    assert!(md.contains("| Type | Keys | % |\n|---|--:|--:|\n| `p` | 3 | 75.0% |\n\n_1 more types hidden (1 keys)._\n\n"));
    assert!(!md.contains("Measured memory"));
    assert!(!md.contains("Biggest"));
}

#[test]
fn terminal_report() {
    let out = render(&sample(), &all(1, 2));
    assert!(out.starts_with("\n=== Namespace summary ===\n+"));
    assert!(out.contains("| Namespace | Keys | %     | Memory  |"), "{out}");
    assert!(out.contains("| a         |    4 | 80.0% | 2.11 kB |"), "{out}");
    assert!(out.contains("\nTotal keys: 5\n\n--- a (4 keys, 2 types) ---\n"), "{out}");
    assert!(out.contains("\n  … 1 more types hidden (1 keys). Use --top 0 to show all.\n"));
    assert!(out.contains("\n=== Biggest 2 keys ===\n"));
    assert!(out.contains("| 1 | 1.50 kB | string | persistent | a:p1 |"), "{out}");
    let out = render(&sample(), &counts(0));
    assert!(!out.contains("Memory") && !out.contains("Biggest") && !out.contains("hidden"));
}

#[test]
fn empty_reports() {
    let md = render_markdown(&Stats::default(), &all(0, 5));
    assert!(md.contains("- **Total keys scanned:** 0\n- **Namespaces:** 0\n- **Measured memory:** 0 B\n"));
    assert!(!md.contains("Biggest"));
}

#[test]
fn most_keys_come_first() {
    let mut s = sample();
    for _ in 0..9 {
        s.record("z:k", "z", "t", &KeyObservation::default());
    }
    let rows = namespace_rows(&s);
    let listed: Vec<(&str, u64, u64)> = rows
        .iter()
        .map(|r| (s.namespaces.at(r.0).name.as_str(), r.1, r.2))
        .collect();
    assert_eq!(listed, vec![("z", 9, 0), ("a", 4, 2110), ("b", 1, 5)]);
}

#[test]
fn shown_and_hidden_keys_add_up() {
    let mut s = Stats::default();
    for (i, n) in [3, 1, 4, 1, 5].iter().enumerate() {
        for _ in 0..*n {
            s.record("k", "ns", &format!("t{i}"), &KeyObservation::default());
        }
    }
    let md = render_markdown(&s, &counts(2));
    assert!(md.contains("| `t4` | 5 |") && md.contains("| `t2` | 4 |"));
    assert!(md.contains("_3 more types hidden (5 keys)._"));
}

#[test]
fn data_types_are_listed_most_first() {
    let s = sample();
    let t = s.namespaces.get("a").unwrap().get("p").unwrap();
    assert_eq!(data_types_str(t), "string:2 hash:1");
}
