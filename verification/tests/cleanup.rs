use shopware_redis_cli_helper::cleanup::{
    batch_error, match_pattern, plan, report, scan_command, script_flag, Batcher, CleanupArgs,
    Producer, Totals,
};

#[test]
fn pattern_scopes_to_namespace_with_control_bytes() {
    let all = match_pattern(None);
    assert_eq!(all, "*\u{0001}tags\u{0001}*");
    let scoped = match_pattern(Some("WpDcVyo5fP"));
    assert_eq!(scoped, "WpDcVyo5fP:\u{0001}tags\u{0001}*");
}

#[test]
fn totals_accumulate() {
    let mut a = Totals::default();
    a.add(Totals {
        processed_keys: 2,
        removed_members: 5,
        deleted_keys: 1,
    });
    a.add(Totals {
        processed_keys: 3,
        removed_members: 0,
        deleted_keys: 2,
    });
    assert_eq!(a.processed_keys, 5);
    assert_eq!(a.removed_members, 5);
    assert_eq!(a.deleted_keys, 3);
}

#[test]
fn totals_notice_overflow() {
    let a = Totals { processed_keys: u64::MAX, removed_members: 0, deleted_keys: 0 };
    let b = Totals { processed_keys: 1, removed_members: 0, deleted_keys: 0 };
    assert!(!a.fits(&b));
    assert!(a.fits(&Totals::default()));
}

fn keys(n: u8) -> Vec<Vec<u8>> {
    (0..n).map(|i| vec![i]).collect()
}

fn batches(size: usize, keys: &[Vec<u8>]) -> Vec<Vec<Vec<u8>>> {
    let mut b = Batcher::new(size);
    let mut out = Vec::new();
    for k in keys {
        if let Some(batch) = b.push(k.clone()) {
            out.push(batch);
        }
    }
    out.extend(b.finish());
    out
}

#[test]
fn batches_hold_every_key_in_order() {
    for size in 0..6 {
        let all = keys(11);
        let cut = batches(size, &all);
        assert_eq!(cut.concat(), all);
        let (last, front) = cut.split_last().unwrap();
        for b in front {
            assert_eq!(b.len(), size.max(1));
        }
        assert!(last.len() <= size.max(1));
    }
    assert!(batches(4, &[]).is_empty());
}

#[test]
fn any_split_among_workers_gives_the_same_totals() {
    let parts: Vec<Totals> = (1..8u64)
        .map(|i| Totals { processed_keys: i, removed_members: i * i, deleted_keys: i % 2 })
        .collect();
    let mut one = Totals::default();
    for t in &parts {
        one.add(*t);
    }
    let mut left = Totals::default();
    let mut right = Totals::default();
    for (i, t) in parts.iter().rev().enumerate() {
        if i % 3 == 0 {
            left.add(*t);
        } else {
            right.add(*t);
        }
    }
    left.add(right);
    assert_eq!(
        (one.processed_keys, one.removed_members, one.deleted_keys),
        (left.processed_keys, left.removed_members, left.deleted_keys)
    );
}

fn args(namespace: Option<&str>, apply: bool, concurrency: usize, json: bool) -> CleanupArgs {
    CleanupArgs {
        namespace: namespace.map(|s| s.to_string()),
        apply,
        concurrency,
        count: 1000,
        batch_size: 100,
        json,
    }
}

#[test]
fn a_run_is_dry_unless_applied() {
    let p = plan(&args(None, false, 8, false));
    assert!(p.dry_run);
    assert_eq!(p.workers, 8);
    assert_eq!(p.pattern, "*\u{1}tags\u{1}*");
    assert_eq!(
        p.notice.as_deref(),
        Some("Redis tag cleanup — all namespaces (DRY RUN)\nNo keys will be modified. Re-run with --apply to clean.\n")
    );
    assert_eq!(script_flag(p.dry_run), "1");

    let p = plan(&args(Some("ns"), true, 0, false));
    assert!(!p.dry_run);
    assert_eq!(p.workers, 1);
    assert_eq!(p.notice.as_deref(), Some("Redis tag cleanup — namespace 'ns'\n"));
    assert_eq!(script_flag(p.dry_run), "0");

    assert_eq!(plan(&args(None, true, 1, true)).notice, None);
}

#[test]
fn summaries_are_exact() {
    let t = Totals { processed_keys: 3, removed_members: 2, deleted_keys: 1 };
    assert_eq!(
        report(true, &t),
        "\nTag keys processed:  3\nOrphaned members:    2 (would remove)\nEmpty tag sets:      1 (would delete)\n\nDry run complete — re-run with --apply to perform the cleanup.\n"
    );
    assert_eq!(
        report(false, &t),
        "\nTag keys processed:  3\nOrphaned members removed: 2\nEmpty tag sets deleted:   1\n\nCleanup complete.\n"
    );
    assert_eq!(batch_error("boom"), "batch error: boom");
}

#[test]
fn scan_names_cursor_pattern_and_count() {
    assert_eq!(scan_command(7, "p*", 50), vec!["SCAN", "7", "MATCH", "p*", "COUNT", "50"]);
}

#[test]
fn paging_does_not_change_the_batches() {
    let all = keys(11);
    let whole = batches(4, &all);
    let mut p = Producer::new(4);
    let mut cut = Vec::new();
    for (page, next) in [(&all[..5], 9u64), (&all[5..6], 4), (&all[6..], 0)] {
        let (filled, last) = p.take_in(next, page.to_vec());
        cut.extend(filled);
        assert_eq!(last, next == 0);
        assert_eq!(p.cursor, next);
    }
    cut.extend(p.finish());
    assert_eq!(cut, whole);
}
