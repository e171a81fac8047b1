use shopware_redis_cli_helper::inspect::{Inbox, KeyList, KeyValue, Request};
use shopware_redis_cli_helper::rows::{
    display_key, display_type, filtered_namespaces, filtered_types, persistent_rows,
    persistent_totals, Sort,
};
use shopware_redis_cli_helper::screens::{
    biggest, browse, centered_rect, footer, header, key_list, page, persistent, picker,
    server_stats, tab_bar, value, Area, Fragmentation, KeysPanel, Page, Piece, TablePanel, Tone,
    ValuePanel,
};
use shopware_redis_cli_helper::serverinfo::ServerInfo;
use shopware_redis_cli_helper::stats::{KeyObservation, Stats};
use shopware_redis_cli_helper::text::truncate;
use shopware_redis_cli_helper::tui::{handle_key, Action, App, Key, Pane, Screen, Shared, Tab};
use shopware_redis_cli_helper::value::Encoding;

fn line(out: &mut String, pieces: &[Piece]) {
    for p in pieces {
        out.push_str(&p.text);
    }
    out.push('\n');
}

fn table(out: &mut String, t: &TablePanel) {
    out.push_str(&t.title);
    out.push('\n');
    out.push_str(&t.header.join(" "));
    out.push('\n');
    for r in &t.rows {
        out.push_str(&r.join(" "));
        out.push('\n');
    }
}

fn rounded(info: &Option<ServerInfo>) -> Option<Fragmentation> {
    let ratio: f64 = info.as_ref()?.mem_fragmentation_ratio.as_ref()?.parse().ok()?;
    Some(Fragmentation { text: format!("{ratio:.2}"), high: ratio >= 1.5 })
}

/// All texts on the screen of `app`.
fn screen(app: &mut App, stats: &Stats, done: bool, width: u16) -> String {
    let mut out = String::new();
    match page(app) {
        Page::Picker { selected } => {
            let p = picker(selected);
            out.push_str(&p.headline);
            for o in [&p.basic, &p.advanced] {
                line(&mut out, &o.title);
                out.push_str(&o.line.text);
                out.push('\n');
                out.push_str(&o.note);
                out.push('\n');
            }
            out.push_str(&p.hints);
        }
        Page::Keys => match key_list(app, width) {
            KeysPanel::Message(m) | KeysPanel::Error(m) => out.push_str(&m),
            KeysPanel::List { title, rows, .. } => {
                out.push_str(&title);
                out.push_str(&rows.join("\n"));
            }
        },
        Page::Value => match value(app, width) {
            ValuePanel::Message(m) => out.push_str(&m),
            ValuePanel::Shown(v) => {
                out.push_str(&v.key);
                out.push('\n');
                line(&mut out, &v.kind);
                line(&mut out, &v.facts);
                out.push_str(&v.title);
                out.push_str(&v.body);
            }
        },
        Page::Running(tab) => {
            let h = header(stats.total_keys, done, false, app.advanced);
            out.push_str(&h.title);
            out.push_str(&h.label);
            out.push('\n');
            let frag = rounded(&app.info);
            line(&mut out, &server_stats(&app.info, &frag));
            let (titles, _) = tab_bar(tab, app.advanced);
            out.push_str(&titles.join("│"));
            out.push('\n');
            match tab {
                Tab::Browse => {
                    let b = browse(app, stats);
                    out.push_str(&b.namespaces.title);
                    out.push('\n');
                    for r in &b.namespaces.rows {
                        line(&mut out, r);
                    }
                    table(&mut out, &b.types);
                }
                Tab::Biggest => table(&mut out, &biggest(app, stats)),
                Tab::Persistent => {
                    let p = persistent(app, stats);
                    line(&mut out, &p.banner);
                    table(&mut out, &p.table);
                }
            }
            line(&mut out, &footer(app, None));
        }
    }
    out
}

fn render_to_string(stats: &Stats, tab: Tab) -> String {
    render_with_mode(stats, tab, false)
}

fn render_with_mode(stats: &Stats, tab: Tab, advanced: bool) -> String {
    let shared = Shared { advanced, ..Default::default() };
    let mut app = App::new(&shared);
    app.tab = tab;
    screen(&mut app, stats, true, 120)
}

fn render_app(app: &mut App, stats: &Stats) -> String {
    screen(app, stats, true, 120)
}

fn sample() -> Stats {
    let mut s = Stats::with_biggest_cap(10);
    let obs = |b: u64| KeyObservation {
        bytes: Some(b),
        data_type: Some("string".into()),
        ttl: Some(-1),
    };
    // ns "alpha": 3 keys of type "product", 1 of "review"
    s.record("alpha:product-1", "alpha", "product", &obs(100));
    s.record("alpha:product-2", "alpha", "product", &obs(900));
    s.record("alpha:product-3", "alpha", "product", &obs(50));
    s.record("alpha:review-1", "alpha", "review", &obs(5000));
    // ns "beta": 1 key
    s.record("beta:cart-1", "beta", "cart", &obs(200));
    s
}

fn app_with(stats: &Stats) -> App {
    App::new(&Shared { stats: stats.clone(), ..Default::default() })
}

/// App in advanced mode, where all tabs (Browse/Biggest/Persistent) exist.
fn app_with_advanced(stats: &Stats) -> App {
    App::new(&Shared { stats: stats.clone(), advanced: true, ..Default::default() })
}

fn press(app: &mut App, key: Key, stats: &Stats) -> Action {
    handle_key(app, key, false, stats)
}

fn unmeasured() -> KeyObservation {
    KeyObservation { bytes: None, data_type: None, ttl: None }
}

#[test]
fn header_shows_scan_mode() {
    let s = sample();
    assert!(render_with_mode(&s, Tab::Browse, false).contains("basic"));
    assert!(render_with_mode(&s, Tab::Browse, true).contains("advanced"));
}

#[test]
fn selected_namespace_row_is_readable_not_magenta() {
    // The highlight must own the whole row: black text on the bright bar.
    let s = sample();
    let mut app = app_with_advanced(&s); // Namespaces pane focused, row 0 selected
    let b = browse(&mut app, &s);
    let sel = b.namespaces.selected.expect("no highlighted namespace row found");
    assert!(b.namespaces.focused);
    for p in &b.namespaces.rows[sel] {
        assert_ne!(p.tone, Tone::Magenta, "selected row still has magenta text (unreadable)");
        assert_eq!(p.tone, Tone::Black);
    }
    assert!(b.namespaces.rows[1].iter().any(|p| p.tone == Tone::Magenta));
}

#[test]
fn header_shows_server_stats_when_available() {
    let s = sample();
    let mut app = app_with(&s);
    let info = ServerInfo {
        redis_version: Some("7.2.4".into()),
        used_memory: Some(75_000_000),
        maxmemory: Some(100_000_000),
        evicted_keys: Some(42),
        mem_fragmentation_ratio: Some("1.80".into()),
        db_keys: Some(1234),
        ..Default::default()
    };
    app.attach_server_info(Some(info));
    let out = render_app(&mut app, &s);
    assert!(out.contains("mem 75%"), "fullness missing: {out}");
    assert!(out.contains("keys 1234"), "db keys missing");
    assert!(out.contains("evicted 42"), "evictions missing");
    assert!(out.contains("frag 1.80"), "fragmentation missing");
    assert!(out.contains("v7.2.4"), "version missing");
}

#[test]
fn header_shows_connecting_until_first_poll() {
    let s = sample();
    let mut app = app_with(&s);
    app.attach_server_info(None);
    assert!(render_app(&mut app, &s).contains("connecting"));
}

#[test]
fn biggest_empty_hint_differs_by_mode() {
    // No biggest data + basic mode -> hint nudges toward advanced.
    let s = Stats::default();
    let basic = render_with_mode(&s, Tab::Biggest, false);
    assert!(basic.contains("basic scan"), "basic hint missing: {basic}");
    let adv = render_with_mode(&s, Tab::Biggest, true);
    assert!(!adv.contains("basic scan"), "advanced should not nudge: {adv}");
}

#[test]
fn browse_view_renders_memory_types_and_ttl_columns() {
    let s = sample();
    // These columns only exist in advanced mode.
    let out = render_with_mode(&s, Tab::Browse, true);
    // Namespaces appear.
    assert!(out.contains("alpha"), "namespace missing: {out}");
    // Memory column populated (humansize formats e.g. "6.05 kB" / "200 B").
    assert!(out.contains(" B") || out.contains("kB"), "no memory: {out}");
    // Data-type breakdown rendered for the selected namespace's types.
    assert!(out.contains("string:"), "no data types: {out}");
}

#[test]
fn basic_mode_hides_memory_columns() {
    // In basic mode only counts are known; the namespace list and type table
    // must not show a misleading "0 B" memory column.
    let mut s = Stats::with_biggest_cap(0);
    s.record("ns:product-1", "ns", "product", &unmeasured());
    let out = render_with_mode(&s, Tab::Browse, false);
    assert!(out.contains("product"), "type row missing: {out}");
    assert!(!out.contains("0 B"), "basic mode shows a memory column: {out}");
    assert!(!out.contains("kB"), "basic mode shows a memory column: {out}");
}

#[test]
fn first_namespace_auto_selected_once_scan_populates() {
    // The list starts empty during the live scan; the cursor must land on the
    // first namespace as soon as one appears (not stay unset).
    let empty = Stats::default();
    let mut app = app_with(&empty);
    // First frame: nothing scanned yet -> no selection.
    let _ = render_app(&mut app, &empty);
    assert_eq!(app.ns, None, "empty list -> no selection");

    // Next frame: a namespace has appeared -> auto-select row 0.
    let mut s = Stats::default();
    s.record("alpha:product-1", "alpha", "product", &unmeasured());
    let _ = render_app(&mut app, &s);
    assert_eq!(app.ns, Some(0), "first namespace should be auto-selected");
}

#[test]
fn browse_view_humanizes_tag_set_type() {
    // One namespace, one tag-set type -> it's selected by default and its
    // type table must show the friendly label, not the control bytes.
    let obs = KeyObservation {
        bytes: Some(100),
        data_type: Some("set".into()),
        ttl: Some(-1),
    };
    let mut s = Stats::with_biggest_cap(0);
    s.record(
        "ns:\\x01tags\\x01product",
        "ns",
        "\\x01tags\\x01product",
        &obs,
    );
    let out = render_to_string(&s, Tab::Browse);
    assert!(out.contains("🏷"), "tag emoji missing: {out}");
    assert!(out.contains("(tag set)"), "tag label missing: {out}");
    assert!(!out.contains("\\x01"), "raw marker leaked: {out}");
}

#[test]
fn biggest_view_lists_keys_when_memory_tracked() {
    let s = sample();
    let out = render_to_string(&s, Tab::Biggest);
    assert!(out.contains("Biggest"), "no biggest title: {out}");
    // The largest key (review-1, 5000 bytes) should be listed.
    assert!(out.contains("review-1"), "biggest key missing: {out}");
    // And NOT the empty-state hint, since memory was tracked.
    assert!(
        !out.contains("run with memory tracking"),
        "should not show empty hint: {out}"
    );
}

#[test]
fn filter_matches_namespace_substring_case_insensitive() {
    let s = sample();
    let rows = filtered_namespaces(&s, "AL", Sort::Count);
    assert_eq!(rows.len(), 1);
    assert_eq!(rows[0].name, "alpha");
}

#[test]
fn empty_filter_returns_all_namespaces() {
    let s = sample();
    assert_eq!(filtered_namespaces(&s, "", Sort::Count).len(), 2);
}

#[test]
fn namespaces_sort_by_count_then_memory() {
    let s = sample();
    // alpha has 4 keys, beta has 1 -> alpha first by count.
    let by_count = filtered_namespaces(&s, "", Sort::Count);
    assert_eq!(by_count[0].name, "alpha");
    // By total memory alpha (6050) still beats beta (200).
    let by_mem = filtered_namespaces(&s, "", Sort::TotalMem);
    assert_eq!(by_mem[0].name, "alpha");
}

#[test]
fn types_sort_toggles_between_count_and_avg() {
    let s = sample();
    // By count: product (3) before review (1).
    let by_count = filtered_types(&s, "alpha", "", Sort::Count);
    assert_eq!(by_count[0].name, "product");
    // By avg memory: review (5000) before product (avg ~350).
    let by_avg = filtered_types(&s, "alpha", "", Sort::AvgMem);
    assert_eq!(by_avg[0].name, "review");
}

#[test]
fn truncate_keeps_short_strings_and_ellipsizes_long() {
    assert_eq!(truncate("short", 10), "short");
    assert_eq!(truncate("abcdefghij", 5), "abcd…");
}

#[test]
fn display_type_humanizes_tag_sets_only() {
    assert_eq!(
        display_type("\\x01tags\\x01product"),
        "🏷 product  (tag set)"
    );
    // Non-tag types are unchanged.
    assert_eq!(display_type("product-detail-route"), "product-detail-route");
}

#[test]
fn display_key_rewrites_embedded_tag_marker() {
    assert_eq!(
        display_key("WpDcVyo5fP:\\x01tags\\x01product-0f483ff8"),
        "WpDcVyo5fP:🏷 tags » product-0f483ff8"
    );
    assert_eq!(display_key("WpDcVyo5fP:product-1"), "WpDcVyo5fP:product-1");
}

#[test]
fn filter_matches_humanized_tag_label() {
    // A namespace whose only type is a tag set.
    let obs = KeyObservation {
        bytes: Some(10),
        data_type: Some("set".into()),
        ttl: Some(-1),
    };
    let mut s = Stats::with_biggest_cap(0);
    s.record(
        "ns:\\x01tags\\x01product",
        "ns",
        "\\x01tags\\x01product",
        &obs,
    );
    // Typing "tag" finds it via the humanized "(tag set)" label, even
    // though the canonical name has no plain "tag" substring run.
    let rows = filtered_types(&s, "ns", "tag set", Sort::Count);
    assert_eq!(rows.len(), 1);
}

#[test]
fn picker_renders_inside_the_tui_frame() {
    let mut app = App::with_picker();
    let out = screen(&mut app, &Stats::default(), false, 120);
    assert!(out.contains("Choose scan depth"), "picker title missing: {out}");
    assert!(out.contains("Basic"), "Basic option missing");
    assert!(out.contains("Advanced"), "Advanced option missing");
}

#[test]
fn picker_description_uses_theme_foreground() {
    // Descriptive picker copy inherits the terminal foreground: it is plain
    // text without a colour of its own.
    let p = picker(0);
    for option in [&p.basic, &p.advanced] {
        assert_eq!(option.line.tone, Tone::Plain, "picker description has a colour of its own");
        assert!(!option.line.bold);
    }
    assert!(p.basic.line.text.contains("Key counts only"), "picker description text not found");
}

#[test]
fn picker_enter_on_advanced_starts_advanced_scan() {
    let mut app = App::with_picker();
    let s = Stats::default();
    press(&mut app, Key::Down, &s); // highlight Advanced
    let action = press(&mut app, Key::Enter, &s);
    assert!(matches!(app.screen, Screen::Running), "should leave the picker");
    assert!(app.advanced, "advanced flag must be set");
    assert!(
        matches!(action, Action::Chosen { advanced: true, start: true }),
        "scan task gets advanced=true"
    );
}

#[test]
fn picker_b_key_selects_basic() {
    let mut app = App::with_picker();
    let action = press(&mut app, Key::Char('b'), &Stats::default());
    assert!(matches!(app.screen, Screen::Running));
    assert!(!app.advanced);
    assert!(matches!(action, Action::Chosen { advanced: false, start: true }));
}

#[test]
fn right_arrow_enters_types_pane_and_left_returns() {
    let s = sample();
    let mut app = app_with(&s);
    assert!(app.pane == Pane::Namespaces);

    press(&mut app, Key::Right, &s);
    assert!(app.pane == Pane::Types, "Right should focus Types");
    assert_eq!(app.typ, Some(0));

    press(&mut app, Key::Left, &s);
    assert!(app.pane == Pane::Namespaces, "Left should return to Namespaces");
}

#[test]
fn tab_bar_shows_all_tabs_in_advanced() {
    let s = sample();
    let mut app = app_with_advanced(&s);
    let out = render_app(&mut app, &s);
    assert!(out.contains("Browse"), "Browse tab missing: {out}");
    assert!(out.contains("Biggest keys"), "Biggest tab missing");
    assert!(out.contains("Persistent"), "Persistent tab missing");
}

#[test]
fn basic_mode_shows_only_browse_tab() {
    let s = sample();
    let mut app = app_with(&s); // basic
    let out = render_app(&mut app, &s);
    assert!(out.contains("Browse"));
    assert!(!out.contains("Biggest keys"), "advanced tabs leaked into basic");
    assert!(!out.contains("Persistent"), "advanced tabs leaked into basic");
}

#[test]
fn tab_cycles_through_all_views_in_advanced() {
    let s = sample();
    let mut app = app_with_advanced(&s);
    assert!(app.tab == Tab::Browse);
    press(&mut app, Key::Tab, &s);
    assert!(app.tab == Tab::Biggest, "Tab -> Biggest");
    press(&mut app, Key::Tab, &s);
    assert!(app.tab == Tab::Persistent, "Tab -> Persistent");
    press(&mut app, Key::Tab, &s);
    assert!(app.tab == Tab::Browse, "Tab wraps -> Browse");
    // Shift-Tab goes backwards.
    press(&mut app, Key::BackTab, &s);
    assert!(app.tab == Tab::Persistent, "Shift-Tab -> Persistent");
}

#[test]
fn tab_is_noop_with_single_tab_in_basic() {
    let s = sample();
    let mut app = app_with(&s); // basic: only Browse
    press(&mut app, Key::Tab, &s);
    assert!(app.tab == Tab::Browse, "no other tab to switch to");
}

#[test]
fn persistent_view_shows_summary_and_per_type_rows() {
    // Two persistent (no-TTL) keys totalling 1500 bytes, one expiring key.
    let mut s = Stats::default();
    let obs = |bytes: u64, ttl: i64| KeyObservation {
        bytes: Some(bytes),
        data_type: Some("string".into()),
        ttl: Some(ttl),
    };
    s.record("ns:config-1", "ns", "config", &obs(1000, -1));
    s.record("ns:config-2", "ns", "config", &obs(500, -1));
    s.record("ns:page-1", "ns", "page", &obs(9999, 60)); // expiring

    // Aggregation: only the persistent type appears, with its byte total.
    let rows = persistent_rows(&s);
    assert_eq!(rows.len(), 1, "only the persistent type");
    assert_eq!(rows[0].key_type, "config");
    assert_eq!(rows[0].keys, 2);
    assert_eq!(rows[0].bytes, 1500);

    let mut app = app_with_advanced(&s);
    app.tab = Tab::Persistent;
    let out = render_app(&mut app, &s);
    assert!(out.contains("2 persistent keys"), "banner count missing: {out}");
    assert!(out.contains("config"), "type row missing");
    // 1500 of 11499 measured bytes ≈ 13%.
    assert!(out.contains("won't be freed"), "explanation missing");
    assert!(out.contains("(13.0% of measured memory)"), "{out}");
}

#[test]
fn arrows_move_between_panes_in_browse() {
    // Pane focus now moves with the arrows (Tab is for views).
    let s = sample();
    let mut app = app_with(&s);
    assert!(app.pane == Pane::Namespaces);
    press(&mut app, Key::Right, &s);
    assert!(app.pane == Pane::Types, "Right -> Types");
    press(&mut app, Key::Left, &s);
    assert!(app.pane == Pane::Namespaces, "Left -> Namespaces");
}

#[test]
fn arrows_move_type_cursor_when_types_pane_focused() {
    let s = sample();
    let mut app = app_with(&s);
    press(&mut app, Key::Right, &s); // focus Types
    assert_eq!(app.typ, Some(0));
    // alpha has 2 types (product, review) -> wraps within the pane.
    press(&mut app, Key::Down, &s);
    assert_eq!(app.typ, Some(1));
    press(&mut app, Key::Down, &s);
    assert_eq!(app.typ, Some(0), "should wrap");
    // The namespace cursor must NOT have moved while in the Types pane.
    assert_eq!(app.ns, Some(0));
}

#[test]
fn changing_namespace_resets_type_cursor() {
    let s = sample();
    let mut app = app_with(&s);
    press(&mut app, Key::Right, &s);
    press(&mut app, Key::Down, &s); // type cursor -> 1
    assert_eq!(app.typ, Some(1));
    press(&mut app, Key::Left, &s); // back to namespaces
    press(&mut app, Key::Down, &s); // alpha -> beta
    assert_eq!(app.typ, Some(0), "type cursor resets");
}

#[test]
fn cannot_focus_empty_types_pane() {
    // Namespace "alpha-store" with a type "widget". A filter of "alpha"
    // keeps the namespace visible but hides the type (it lacks "alpha"),
    // so the Types pane has no rows to land on.
    let mut s = Stats::with_biggest_cap(0);
    s.record("alpha-store:widget-1", "alpha-store", "widget", &unmeasured());
    let mut app = app_with(&s);
    app.filter = "alpha".into();
    assert_eq!(filtered_namespaces(&s, "alpha", Sort::Count).len(), 1);
    assert_eq!(
        filtered_types(&s, "alpha-store", "alpha", Sort::Count).len(),
        0
    );
    press(&mut app, Key::Right, &s);
    assert!(app.pane == Pane::Namespaces, "must not focus a pane with no rows");
}

// ---- Drill-down (key list + value inspector) ----

/// Let the app pick up an inbox that holds one more result.
fn deliver(app: &mut App, set: impl FnOnce(&mut Inbox)) {
    let mut inbox = Inbox::default();
    set(&mut inbox);
    app.poll_inbox(inbox);
}

fn app_with_inbox(stats: &Stats) -> App {
    let mut app = app_with(stats);
    app.attach_inspector();
    app
}

fn plain_value(key: &str, body: &str) -> KeyValue {
    KeyValue {
        key: key.into(),
        redis_type: "string".into(),
        ttl: None,
        size_bytes: None,
        elements: None,
        body: body.into(),
        hex: None,
        is_binary: false,
        encoding: Some(Encoding::Plain),
        stream_offset: None,
        error: None,
    }
}

#[test]
fn key_list_result_moves_to_keys_screen_and_renders() {
    let s = sample();
    let mut app = app_with_inbox(&s);
    deliver(&mut app, |inbox| {
        inbox.put_list(KeyList {
            namespace: "alpha".into(),
            key_type: "product".into(),
            keys: vec!["alpha:product-1".into(), "alpha:product-2".into()],
            capped: false,
            error: None,
        });
    });
    assert!(matches!(app.screen, Screen::Keys));
    let out = render_app(&mut app, &s);
    assert!(out.contains("alpha:product-1"), "key missing: {out}");
    assert!(out.contains("2 keys"), "count missing: {out}");
}

#[test]
fn value_result_renders_type_and_decompression_label() {
    let s = sample();
    let mut app = app_with_inbox(&s);
    // Be on the Keys screen first (poll only promotes to Value from Keys/Value).
    app.screen = Screen::Keys;
    deliver(&mut app, |inbox| {
        inbox.put_value(KeyValue {
            key: "alpha:cached-page-x".into(),
            redis_type: "string".into(),
            ttl: Some(3600),
            size_bytes: Some(512),
            elements: None,
            body: "{\"hello\":\"world\"}".into(),
            hex: None,
            is_binary: false,
            encoding: Some(Encoding::Gzip),
            stream_offset: None,
            error: None,
        });
    });
    assert!(matches!(app.screen, Screen::Value));
    let out = render_app(&mut app, &s);
    assert!(out.contains("string"), "type missing: {out}");
    assert!(
        out.contains("decompressed from gzip"),
        "encoding label missing: {out}"
    );
    assert!(out.contains("hello"), "body missing: {out}");
    assert!(out.contains("3600s"), "ttl missing: {out}");
    assert!(out.contains("expires "), "absolute expiry missing: {out}");
}

#[test]
fn binary_value_defaults_to_hex_and_x_toggles_to_text() {
    let s = sample();
    let mut app = app_with_inbox(&s);
    app.screen = Screen::Keys;
    deliver(&mut app, |inbox| {
        inbox.put_value(KeyValue {
            key: "alpha:blob".into(),
            redis_type: "string".into(),
            ttl: None,
            size_bytes: Some(4),
            elements: None,
            body: "lossy-text-here".into(),
            hex: Some("00000000  de ad be ef   ....".into()),
            is_binary: true,
            encoding: Some(Encoding::Plain),
            stream_offset: None,
            error: None,
        });
    });
    // Binary -> defaults to the hex view.
    assert!(app.value_hex, "binary value should default to hex");
    let out = render_app(&mut app, &s);
    assert!(out.contains("de ad be ef"), "hex not shown by default: {out}");

    // 'x' toggles to the text rendering.
    press(&mut app, Key::Char('x'), &s);
    assert!(!app.value_hex);
    let out = render_app(&mut app, &s);
    assert!(out.contains("lossy-text-here"), "text not shown after toggle: {out}");
}

#[test]
fn esc_steps_back_out_of_drill_down() {
    let s = sample();
    let mut app = app_with_inbox(&s);
    app.screen = Screen::Value;
    app.key_value = Some(plain_value("k", "x"));
    press(&mut app, Key::Esc, &s);
    assert!(matches!(app.screen, Screen::Keys), "value Esc -> keys");
    press(&mut app, Key::Esc, &s);
    assert!(matches!(app.screen, Screen::Running), "keys Esc -> running");
}

#[test]
fn late_result_does_not_yank_user_out_of_navigation() {
    // If a key-list reply lands while we've navigated into a Value, it must
    // not pull us back to the Keys screen.
    let s = sample();
    let mut app = app_with_inbox(&s);
    app.screen = Screen::Value;
    deliver(&mut app, |inbox| {
        inbox.put_list(KeyList {
            namespace: "alpha".into(),
            key_type: "product".into(),
            keys: vec!["alpha:product-1".into()],
            capped: false,
            error: None,
        });
    });
    assert!(matches!(app.screen, Screen::Value), "stayed on Value");
}

// ---- Further behaviour ----

#[test]
fn enter_drills_from_namespace_to_value() {
    let s = sample();
    let mut app = app_with_inbox(&s);
    assert!(matches!(press(&mut app, Key::Enter, &s), Action::Nothing));
    assert_eq!(app.pane, Pane::Types);
    match press(&mut app, Key::Enter, &s) {
        Action::Fetch(Request::ListKeys { namespace, key_type }) => {
            assert_eq!((namespace.as_str(), key_type.as_str()), ("alpha", "product"));
        }
        other => panic!("{other:?}"),
    }
    assert!(app.loading);
    deliver(&mut app, |inbox| {
        inbox.put_list(KeyList {
            namespace: "alpha".into(),
            key_type: "product".into(),
            keys: vec!["a".into(), "b".into()],
            capped: true,
            error: None,
        });
    });
    assert!(!app.loading);
    press(&mut app, Key::Up, &s);
    match press(&mut app, Key::Enter, &s) {
        Action::Fetch(Request::GetValue { key }) => assert_eq!(key, "b"),
        other => panic!("{other:?}"),
    }
}

#[test]
fn nothing_is_fetched_without_a_fetcher() {
    let s = sample();
    let mut app = app_with(&s);
    press(&mut app, Key::Right, &s);
    assert!(matches!(press(&mut app, Key::Enter, &s), Action::Nothing));
    app.screen = Screen::Keys;
    app.key_sel = Some(0);
    assert!(matches!(press(&mut app, Key::Enter, &s), Action::Nothing));
}

#[test]
fn the_scan_starts_once() {
    let s = Stats::default();
    let mut app = App::with_picker();
    assert!(matches!(press(&mut app, Key::Char('x'), &s), Action::Nothing));
    assert!(matches!(
        press(&mut app, Key::Char('a'), &s),
        Action::Chosen { advanced: true, start: true }
    ));
    app.screen = Screen::Picking { selected: 0 };
    assert!(matches!(
        press(&mut app, Key::Enter, &s),
        Action::Chosen { advanced: false, start: false }
    ));
}

#[test]
fn ctrl_c_quits_everywhere_and_q_where_no_filter_is_typed() {
    let s = sample();
    for start in [Screen::Picking { selected: 0 }, Screen::Running, Screen::Keys, Screen::Value] {
        let mut app = app_with(&s);
        app.screen = start;
        handle_key(&mut app, Key::Char('q'), false, &s);
        assert!(app.should_quit);
        let mut app = app_with(&s);
        app.screen = start;
        handle_key(&mut app, Key::Char('c'), true, &s);
        assert!(app.should_quit);
        let mut app = app_with(&s);
        app.screen = start;
        handle_key(&mut app, Key::Char('c'), false, &s);
        assert!(!app.should_quit);
    }
    let mut app = app_with(&s);
    press(&mut app, Key::Char('/'), &s);
    press(&mut app, Key::Char('q'), &s);
    press(&mut app, Key::Char('x'), &s);
    press(&mut app, Key::Backspace, &s);
    assert!(!app.should_quit && app.editing_filter);
    assert_eq!(app.filter, "q");
    assert!(render_app(&mut app, &s).contains(" filter: q_   (Enter/Esc to apply)"));
    press(&mut app, Key::Enter, &s);
    assert!(!app.editing_filter);
    assert!(render_app(&mut app, &s).contains("q: quit  filter=\"q\" "));
    press(&mut app, Key::Char('/'), &s);
    press(&mut app, Key::Char('c'), &s);
    assert!(!app.should_quit && app.editing_filter);
    assert_eq!(app.filter, "qc");
    handle_key(&mut app, Key::Char('c'), true, &s);
    assert!(app.should_quit);
    assert_eq!(app.filter, "qc");
}

#[test]
fn b_switches_between_browse_and_biggest() {
    let s = sample();
    let mut app = app_with_advanced(&s);
    press(&mut app, Key::Char('b'), &s);
    assert_eq!(app.tab, Tab::Biggest);
    press(&mut app, Key::Char('b'), &s);
    assert_eq!(app.tab, Tab::Browse);
}

#[test]
fn s_cycles_the_sort_order() {
    let s = sample();
    let mut app = app_with(&s);
    let mut seen = Vec::new();
    for _ in 0..4 {
        seen.push(app.sort.label());
        press(&mut app, Key::Char('s'), &s);
    }
    assert_eq!(seen, vec!["count", "total mem", "avg mem", "count"]);
}

#[test]
fn down_and_up_return_to_the_same_row() {
    let s = sample();
    let mut app = app_with_advanced(&s);
    for tab in [Tab::Browse, Tab::Biggest, Tab::Persistent] {
        app.tab = tab;
        let _ = render_app(&mut app, &s);
        let before = (app.ns, app.big, app.persist);
        press(&mut app, Key::Up, &s);
        assert_ne!((app.ns, app.big, app.persist), before);
        press(&mut app, Key::Down, &s);
        assert_eq!((app.ns, app.big, app.persist), before);
    }
}

#[test]
fn scrolling_stays_in_range() {
    let s = sample();
    let mut app = app_with(&s);
    app.screen = Screen::Value;
    press(&mut app, Key::Up, &s);
    assert_eq!(app.value_scroll, 0);
    press(&mut app, Key::PageDown, &s);
    press(&mut app, Key::Down, &s);
    assert_eq!(app.value_scroll, 21);
    press(&mut app, Key::PageUp, &s);
    assert_eq!(app.value_scroll, 1);
    app.value_scroll = u16::MAX - 3;
    press(&mut app, Key::PageDown, &s);
    assert_eq!(app.value_scroll, u16::MAX);
}

#[test]
fn values_show_errors_titles_and_messages() {
    let s = sample();
    let mut app = app_with(&s);
    app.screen = Screen::Value;
    assert_eq!(render_app(&mut app, &s), "No value.");
    app.loading = true;
    assert_eq!(render_app(&mut app, &s), "Loading value…");
    let mut v = plain_value("k", "text");
    v.hex = Some("HEX".to_string());
    v.size_bytes = Some(4);
    v.is_binary = true;
    v.encoding = Some(Encoding::Zlib);
    v.stream_offset = Some(52);
    app.key_value = Some(v.clone());
    app.value_hex = true;
    let out = render_app(&mut app, &s);
    assert!(out.contains("decompressed zlib/deflate (embedded at offset 52)"), "{out}");
    assert!(out.contains(" Value · hex · 4 bytes  (x: show text) HEX"), "{out}");
    app.value_hex = false;
    let out = render_app(&mut app, &s);
    assert!(out.contains(" Value · binary, shown as text  (x: show hex) text"), "{out}");
    v.take_error("gone".to_string());
    app.key_value = Some(v);
    assert!(render_app(&mut app, &s).contains(" Value Error: gone"));
}

#[test]
fn key_lists_show_errors_and_messages() {
    let s = sample();
    let mut app = app_with(&s);
    app.screen = Screen::Keys;
    assert_eq!(render_app(&mut app, &s), "No keys.");
    app.loading = true;
    assert_eq!(render_app(&mut app, &s), "Loading keys…");
    let mut list = KeyList {
        namespace: "n".into(),
        key_type: "\\x01tags\\x01t".into(),
        keys: vec!["abcdefgh".into()],
        capped: true,
        error: None,
    };
    app.key_list = Some(list.clone());
    assert_eq!(
        screen(&mut app, &s, true, 9),
        " n · 🏷 t  (tag set) — 1 keys (sample capped) abcd…"
    );
    list.error = Some("bad".into());
    app.key_list = Some(list);
    assert_eq!(render_app(&mut app, &s), "Error: bad");
}

#[test]
fn memory_pressure_is_coloured() {
    let tone = |used: u64| {
        let info = ServerInfo {
            used_memory: Some(used),
            maxmemory: Some(1000),
            ..Default::default()
        };
        let line = server_stats(&Some(info), &None);
        (line[1].tone, line[1].text.clone())
    };
    assert_eq!(tone(749), (Tone::Green, "mem 75% ".to_string()));
    assert_eq!(tone(750), (Tone::Yellow, "mem 75% ".to_string()));
    assert_eq!(tone(899), (Tone::Yellow, "mem 90% ".to_string()));
    assert_eq!(tone(900), (Tone::Red, "mem 90% ".to_string()));
    assert_eq!(tone(5000), (Tone::Red, "mem 100% ".to_string()));
    let info = ServerInfo { used_memory: Some(1000), ..Default::default() };
    let line = server_stats(&Some(info), &None);
    assert_eq!(line[1].text, "mem 1 kB  ");
    assert_eq!(line[2].text, "(no limit)  ");
}

#[test]
fn gauge_tells_the_state_of_the_scan() {
    assert_eq!(header(0, false, false, false).label, "Connecting…");
    assert_eq!(header(7, false, false, false).label, "Scanning… 7 keys so far");
    assert_eq!(header(7, true, false, false).label, "Scan complete — 7 keys");
    let failed = header(0, true, true, true);
    assert_eq!(failed.label, "Connection failed — see message below");
    assert!(failed.full && failed.tone == Tone::Red);
    assert_eq!(failed.title, " shopware-redis-cli-helper · advanced ");
}

#[test]
fn errors_take_over_the_footer() {
    let s = sample();
    let app = app_with(&s);
    let line = footer(&app, Some("boom"));
    assert_eq!((line[0].text.as_str(), line[1].text.as_str()), (" ERROR: ", "boom"));
}

#[test]
fn rectangles_are_centered_and_clamped() {
    let area = Area { x: 2, y: 3, width: 100, height: 10 };
    assert_eq!(centered_rect(72, 12, area), Area { x: 16, y: 3, width: 72, height: 10 });
    let small = Area { x: 0, y: 0, width: 5, height: 5 };
    assert_eq!(centered_rect(72, 2, small), Area { x: 0, y: 1, width: 5, height: 2 });
}

#[test]
fn persistent_rows_are_sorted_by_memory_then_keys() {
    let mut s = Stats::default();
    let obs = |bytes: u64| KeyObservation { bytes: Some(bytes), data_type: None, ttl: Some(-1) };
    s.record("k", "n", "small", &obs(1));
    s.record("k", "n", "one", &obs(10));
    s.record("k", "m", "two", &obs(4));
    s.record("k", "m", "two", &obs(6));
    let rows: Vec<String> = persistent_rows(&s).into_iter().map(|r| r.key_type).collect();
    assert_eq!(rows, vec!["two", "one", "small"]);
    assert_eq!(persistent_totals(&s), (4, 21));
}

#[test]
fn namespace_rows_are_padded_and_shortened() {
    let mut s = Stats::default();
    s.record("k", "a-very-long-namespace", "t", &unmeasured());
    let mut app = app_with(&s);
    let b = browse(&mut app, &s);
    assert_eq!(b.namespaces.rows[0][0].text, "a-very-long-n…");
    assert_eq!(b.namespaces.rows[0][1].text, "          1");
    assert_eq!(b.types.title, " a-very-long-namespace — 1 types ");
    assert_eq!(b.types.selected, None);
}

#[test]
fn polling_twice_changes_nothing() {
    let s = sample();
    let mut app = app_with_inbox(&s);
    let mut inbox = Inbox::default();
    inbox.put_value(plain_value("k", "x"));
    app.poll_inbox(inbox.clone());
    // On the running screen a value is not awaited.
    assert_eq!(app.screen, Screen::Running);
    app.screen = Screen::Keys;
    app.poll_inbox(inbox);
    assert_eq!(app.screen, Screen::Keys);
}

#[test]
fn a_late_value_does_not_reopen_a_listing() {
    let s = sample();
    let mut app = app_with_inbox(&s);
    let mut inbox = Inbox::default();
    inbox.put_list(KeyList {
        namespace: "alpha".into(),
        key_type: "product".into(),
        keys: vec!["a".into()],
        capped: false,
        error: None,
    });
    app.poll_inbox(inbox.clone());
    assert_eq!(app.screen, Screen::Keys);
    press(&mut app, Key::Esc, &s);
    assert_eq!(app.screen, Screen::Running);
    inbox.put_value(plain_value("a", "x"));
    app.poll_inbox(inbox.clone());
    assert_eq!(app.screen, Screen::Running);
    assert_eq!(app.last_gen, inbox.generation);
    // Nor does a listing bring back a value that was left.
    inbox.put_list(KeyList {
        namespace: "alpha".into(),
        key_type: "product".into(),
        keys: vec!["a".into(), "b".into()],
        capped: false,
        error: None,
    });
    app.poll_inbox(inbox);
    assert_eq!(app.screen, Screen::Keys);
}

#[test]
fn shared_state_follows_the_scan() {
    let mut g = Shared::new(true);
    assert!(g.advanced && !g.done && g.error.is_none());
    g.publish(sample());
    assert_eq!(g.stats.total_keys, 5);
    assert!(!g.done);
    g.finish(Err("broken pipe".to_string()));
    assert!(g.done);
    assert_eq!(g.error.as_deref(), Some("scan failed: broken pipe"));
    assert_eq!(g.stats.total_keys, 5);
    let mut g = Shared::new(false);
    g.finish(Ok(sample()));
    assert!(g.done && g.error.is_none());
    assert_eq!(g.stats.total_keys, 5);
    let mut g = Shared::new(false);
    g.refuse("down".to_string());
    assert!(g.done);
    assert_eq!(g.error.as_deref(), Some("down"));
}
