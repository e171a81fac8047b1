//! What the screens show, column by column.

use crate::binary64::{pct_text, whole_percent};
use crate::inspect::KeyValue;
use crate::leaderboard::BigKey;
use crate::report::size_text;
use crate::rows::{
    filtered_namespaces, filtered_types, is_ns_row, is_persist_row, is_type_row, persistent_bytes,
    persistent_keys, persistent_rows, shown_persistent, shown_type, NsRow, PersistRow, Sort,
    TypeRow,
};
use crate::screens::{
    bold_ink, clamped, footer_line, header, hint, ink, key_list, line_of, page, pressure,
    server_line, shows_biggest, shows_namespaces, shows_persistent, shows_types, tab_bar,
    value_with, Fragmentation, Gauge, KeysPanel, ListPanel, Page, PersistentPanels, TablePanel,
    Tone, ValuePanel, NINE_TENTHS, THREE_QUARTERS,
};
use crate::serverinfo::{fullness, ServerInfo};
use crate::stats::Stats;
use crate::text::{contains, dec, padded_left, padded_right, texts, truncated};
use crate::tui::{selected_types, App, AppModel, Pane, Screen, Tab};
use crate::value::Encoding;
use vstd::prelude::*;

verus! {

/// A cursor is kept where it is while its row exists, goes to the first row
/// otherwise, and is nowhere in an empty list.
pub proof fn cursors_stay_on_a_row(sel: Option<usize>, len: nat)
    ensures
        clamped(sel, len) is None <==> len == 0,
        len > 0 ==> clamped(sel, len)->0 < len,
        sel is Some && sel->0 < len ==> clamped(sel, len) == sel,
        len > 0 && (sel is None || sel->0 >= len) ==> clamped(sel, len) == Some(0usize),
{
}

/// The namespace list shows, row by row, the name, the keys and in advanced
/// mode the memory that the listing gives, and marks the row of the cursor.
pub proof fn namespace_rows_show_the_listing(
    p: ListPanel,
    a: AppModel,
    stats: Stats,
    filter: &str,
    rows: Vec<NsRow>,
    i: int,
)
    requires
        shows_namespaces(p, a, stats),
        stats.wf(),
        filter@ == a.filter,
        call_ensures(filtered_namespaces, (&stats, filter, a.sort), rows),
        0 <= i < rows@.len(),
        rows@.len() <= usize::MAX,
    ensures
        p.rows@.len() == rows@.len(),
        ({
            let l = line_of(p.rows@[i]@);
            let here = a.pane == Pane::Namespaces && a.ns == Some(i as usize);
            &&& l.len() == (if a.advanced {
                3int
            } else {
                2
            })
            &&& l[0].text == padded_right(truncated(rows@[i].name@, 14), 14)
            &&& l[1].text == " "@ + padded_left(dec(rows@[i].keys as nat), 10)
            &&& a.advanced ==> l[2].text == "  "@ + padded_left(size_text(rows@[i].bytes), 9)
            &&& here ==> l[0].tone == Tone::Black && l[1].tone == Tone::Black
            &&& !here ==> l[0].tone == Tone::Plain && l[1].tone == Tone::Yellow
            &&& a.advanced ==> l[2].tone == (if here {
                Tone::Black
            } else {
                Tone::Magenta
            })
        }),
        p.selected == a.ns,
        p.focused <==> a.pane == Pane::Namespaces,
        p.title@ == " Namespaces ("@ + dec(rows@.len()) + ") "@,
{
    let at = crate::rows::shown_ns(stats, a.filter, a.sort);
    let e = stats.namespaces.listing()[at[i]];
    assert(is_ns_row(rows@[i], e));
    assert(line_of(p.rows@[i]@) == crate::screens::ns_line(
        e,
        a.pane == Pane::Namespaces && a.ns == Some(i as usize),
        a.advanced,
    ));
}

/// The type table shows, row by row and under the header that says so, what the
/// listing of the namespace under the cursor gives.
pub proof fn type_rows_show_the_listing(
    p: TablePanel,
    a: AppModel,
    stats: Stats,
    filter: &str,
    ns: &str,
    names: Vec<NsRow>,
    rows: Vec<TypeRow>,
    i: int,
)
    requires
        shows_types(p, a, stats),
        stats.wf(),
        filter@ == a.filter,
        call_ensures(filtered_namespaces, (&stats, filter, a.sort), names),
        a.ns is Some,
        a.ns->0 < names@.len(),
        ns@ == names@[a.ns->0 as int].name@,
        call_ensures(filtered_types, (&stats, ns, filter, a.sort), rows),
        0 <= i < rows@.len(),
    ensures
        p.rows@.len() == rows@.len(),
        ({
            let h = texts(p.header@);
            let c = texts(p.rows@[i]@);
            let r = rows@[i];
            &&& h.len() == c.len()
            &&& h.len() == (if a.advanced {
                7int
            } else {
                3
            })
            &&& h[0] == "Type"@ && c[0] == truncated(shown_type(r.name@), 38)
            &&& h[1] == "Keys"@ && c[1] == dec(r.keys as nat)
            &&& h[2] == "%"@ && c[2] == pct_text(
                r.keys as nat,
                names@[a.ns->0 as int].keys as nat,
            )
            &&& a.advanced ==> {
                &&& h[3] == "Total"@ && c[3] == size_text(r.total_bytes)
                &&& h[4] == "Avg"@ && c[4] == size_text(r.avg_bytes)
                &&& h[5] == "Types"@ && c[5] == truncated(r.data_types@, 16)
                &&& h[6] == "P/E"@ && c[6] == dec(r.persistent as nat) + "/"@ + dec(
                    r.expiring as nat,
                )
            }
        }),
        p.title@ == " "@ + ns@ + " — "@ + dec(rows@.len()) + " types "@,
        p.focused <==> a.pane == Pane::Types,
        p.focused ==> p.selected == a.typ,
        !p.focused ==> p.selected is None,
{
    let at = crate::rows::shown_ns(stats, a.filter, a.sort);
    let e = stats.namespaces.listing()[at[a.ns->0 as int]];
    assert(is_ns_row(names@[a.ns->0 as int], e));
    let types = crate::rows::ns_types(stats, ns@, a.filter, a.sort);
    assert(selected_types(a, stats) == types);
    assert(is_type_row(rows@[i], types[i]));
    assert(texts(p.rows@[i]@) == crate::screens::type_line(
        types[i],
        crate::stats::by_ns_count()(e.value),
        a.advanced,
    ));
}

/// The biggest-keys table numbers the keys from one on, under headers that say
/// what the columns show.
pub proof fn biggest_rows_show_the_ranking(p: TablePanel, a: AppModel, big: Seq<BigKey>, i: int)
    requires
        shows_biggest(p, a, big),
        0 <= i < big.len(),
    ensures
        p.rows@.len() == big.len(),
        ({
            let h = texts(p.header@);
            let c = texts(p.rows@[i]@);
            &&& h.len() == 5 && c.len() == 5
            &&& h[0] == "#"@ && c[0] == dec((i + 1) as nat)
            &&& h[1] == "Size"@ && c[1] == size_text(big[i].bytes)
            &&& h[2] == "Type"@ && (big[i].data_type is Some ==> c[2] == big[i].data_type->0@)
            &&& big[i].data_type is None ==> c[2] == "-"@
            &&& h[3] == "TTL"@ && c[3] == crate::report::ttl_text(big[i].ttl)
            &&& h[4] == "Key"@ && c[4] == crate::rows::shown_key(big[i].key@)
        }),
        p.title@ == " Biggest "@ + dec(big.len()) + " keys "@,
        p.selected == a.big,
{
    assert(texts(p.rows@[i]@) == crate::screens::big_line(big[i], (i + 1) as nat));
}

/// The persistent-keys table shows the rows of the listing, and the banner all
/// such keys, their memory and its share of what was measured.
pub proof fn persistent_rows_show_the_listing(
    p: PersistentPanels,
    a: AppModel,
    stats: Stats,
    rows: Vec<PersistRow>,
    i: int,
)
    requires
        shows_persistent(p, a, stats),
        call_ensures(persistent_rows, (&stats,), rows),
        0 <= i < rows@.len(),
    ensures
        p.table.rows@.len() == rows@.len(),
        ({
            let h = texts(p.table.header@);
            let c = texts(p.table.rows@[i]@);
            &&& h.len() == 4 && c.len() == 4
            &&& h[0] == "Namespace"@ && c[0] == truncated(rows@[i].namespace@, 16)
            &&& h[1] == "Type"@ && c[1] == truncated(shown_type(rows@[i].key_type@), 40)
            &&& h[2] == "Keys"@ && c[2] == dec(rows@[i].keys as nat)
            &&& h[3] == "Memory"@ && c[3] == size_text(rows@[i].bytes)
        }),
        ({
            let b = line_of(p.banner@);
            &&& b.len() == 4
            &&& b[0].text == dec(persistent_keys(stats)) + " persistent keys"@
            &&& b[2].text == size_text(persistent_bytes(stats) as u64)
            &&& b[3].text == "  ("@ + pct_text(
                persistent_bytes(stats),
                stats.measured_bytes as nat,
            ) + " of measured memory) — won't be freed by expiry"@
        }),
        p.table.selected == a.persist,
{
    assert(is_persist_row(rows@[i], stats, shown_persistent(stats)[i]));
    assert(texts(p.table.rows@[i]@) == crate::screens::persistent_line(
        stats,
        shown_persistent(stats)[i],
    ));
}

/// The gauge is red when the connection failed, yellow while connecting, green
/// when the scan is done and cyan while it runs; it counts the keys.
pub proof fn gauge_follows_the_scan(
    total: u64,
    done: bool,
    failed: bool,
    advanced: bool,
    g: Gauge,
)
    requires
        call_ensures(header, (total, done, failed, advanced), g),
    ensures
        failed ==> g.tone == Tone::Red && g.full && g.label@
            == "Connection failed — see message below"@,
        !failed && done ==> g.tone == Tone::Green && g.full && g.label@ == "Scan complete — "@
            + dec(total as nat) + " keys"@,
        !failed && !done && total == 0 ==> g.tone == Tone::Yellow && !g.full && g.label@
            == "Connecting…"@,
        !failed && !done && total > 0 ==> g.tone == Tone::Cyan && !g.full && g.label@
            == "Scanning… "@ + dec(total as nat) + " keys so far"@,
        advanced ==> g.title@ == " shopware-redis-cli-helper · "@ + "advanced"@ + " "@,
        !advanced ==> g.title@ == " shopware-redis-cli-helper · "@ + "basic"@ + " "@,
{
}

/// The server line shows memory with its ceiling if there is one, and every
/// other figure that is known, each once.
pub proof fn server_line_shows_what_is_known(info: ServerInfo, frag: Option<Fragmentation>)
    ensures
        ({
            let l = server_line(info, frag);
            let mem = if info.used_memory is Some {
                2int
            } else {
                0
            };
            let keys = 1 + mem;
            let evicted = keys + (if info.db_keys is Some {
                1int
            } else {
                0
            });
            let ratio = evicted + (if info.evicted_keys is Some {
                1int
            } else {
                0
            });
            let version = ratio + (if frag is Some {
                1int
            } else {
                0
            });
            &&& l.len() == version + (if info.redis_version is Some {
                1int
            } else {
                0
            })
            &&& l[0] == ink(" redis "@, Tone::DarkGray)
            &&& info.used_memory is Some && info.maxmemory is Some && info.maxmemory->0 > 0 ==> {
                &&& l[1] == bold_ink(
                    "mem "@ + whole_percent(fullness(info.used_memory->0, info.maxmemory->0))
                        + "% "@,
                    pressure(info.used_memory->0, info.maxmemory->0),
                )
                &&& l[2].text == "("@ + size_text(info.used_memory->0) + "/"@ + size_text(
                    info.maxmemory->0,
                ) + ")  "@
            }
            &&& info.used_memory is Some && (info.maxmemory is None || info.maxmemory->0 == 0) ==> {
                &&& l[1].text == "mem "@ + size_text(info.used_memory->0) + "  "@
                &&& l[2].text == "(no limit)  "@
            }
            &&& info.db_keys is Some ==> l[keys] == ink(
                "keys "@ + dec(info.db_keys->0 as nat) + "  "@,
                Tone::Cyan,
            )
            &&& info.evicted_keys is Some ==> l[evicted].text == "evicted "@ + dec(
                info.evicted_keys->0 as nat,
            ) + "  "@ && (l[evicted].tone == Tone::Yellow <==> info.evicted_keys->0 > 0)
            &&& frag is Some ==> l[ratio].text == "frag "@ + frag->0.text@ + "  "@ && (
            l[ratio].tone == Tone::Yellow <==> frag->0.high)
            &&& info.redis_version is Some ==> l[version].text == "v"@ + info.redis_version->0@
        }),
{
}

/// Memory is red from nine tenths on and yellow from three quarters on.
pub proof fn pressure_has_two_thresholds(used: u64, max: u64)
    ensures
        pressure(used, max) == Tone::Red <==> crate::binary64::at_least(
            fullness(used, max),
            NINE_TENTHS as nat,
        ),
        pressure(used, max) == Tone::Green <==> !crate::binary64::at_least(
            fullness(used, max),
            NINE_TENTHS as nat,
        ) && !crate::binary64::at_least(fullness(used, max), THREE_QUARTERS as nat),
        pressure(used, max) == Tone::Red || pressure(used, max) == Tone::Yellow || pressure(
            used,
            max,
        ) == Tone::Green,
        -5 <= 10 * NINE_TENTHS - 9 * 0x20_0000_0000_0000 <= 5,
        4 * THREE_QUARTERS == 3 * 0x20_0000_0000_0000,
{
}

/// The footer shows an error before all else, the filter while it is typed, and
/// otherwise key hints with the sort order and the filter in force.
pub proof fn footer_shows_what_matters(a: AppModel, error: Option<&str>)
    ensures
        error is Some ==> footer_line(a, error) == seq![
            bold_ink(" ERROR: "@, Tone::Red),
            ink(error->0@, Tone::Plain),
        ],
        error is None && a.editing_filter ==> footer_line(a, error).len() == 3 && footer_line(
            a,
            error,
        )[1].text == a.filter + "_"@,
        error is None && !a.editing_filter ==> footer_line(a, error) == seq![
            ink(hint(a), Tone::Gray),
        ],
        a.tab != Tab::Persistent && a.sort == Sort::Count ==> contains(hint(a), "["@ + "count"@ + "]"@),
        a.tab != Tab::Persistent && a.sort == Sort::TotalMem ==> contains(
            hint(a),
            "["@ + "total mem"@ + "]"@,
        ),
        a.tab != Tab::Persistent && a.sort == Sort::AvgMem ==> contains(
            hint(a),
            "["@ + "avg mem"@ + "]"@,
        ),
        a.filter.len() > 0 ==> contains(hint(a), "filter=\""@ + a.filter + "\""@),
{
    reveal_strlit(" ↑↓ move  Enter keys  ←/Esc back  Tab: view  s: sort [");
    reveal_strlit(" ↑↓ move  →/Enter types  Tab: view  s: sort [");
    reveal_strlit(" ↑↓ move  Tab: view  s: sort [");
    reveal_strlit("]  /: filter  q: quit");
    reveal_strlit("[");
    reveal_strlit(" ");
    reveal_strlit("]");
    reveal_strlit("  filter=\"");
    reveal_strlit("filter=\"");
    let h = hint(a);
    let sort = crate::rows::sort_name(a.sort);
    let note = crate::screens::filter_note(a.filter);
    let front = match a.tab {
        Tab::Browse => if a.pane == Pane::Types && a.can_fetch {
            " ↑↓ move  Enter keys  ←/Esc back  Tab: view  s: sort ["@
        } else {
            " ↑↓ move  →/Enter types  Tab: view  s: sort ["@
        },
        _ => " ↑↓ move  Tab: view  s: sort ["@,
    };
    if a.tab != Tab::Persistent {
        let w = "["@ + sort + "]"@;
        let at = front.len() - 1;
        assert(h.subrange(at, at + w.len()) =~= w);
        assert(crate::text::occurs_at(h, w, at));
    }
    if a.filter.len() > 0 {
        let w = "filter=\""@ + a.filter + "\""@;
        let at = h.len() - 1 - w.len();
        assert(note =~= "  "@ + w) by {
            reveal_strlit("  ");
        }
        assert(h.subrange(at, at + w.len()) =~= w);
        assert(crate::text::occurs_at(h, w, at));
    }
}

/// The key list shows every key at its row, shortened to the width, under a
/// title that counts them and says if more exist; or the error, or that there
/// is none.
pub proof fn key_list_shows_every_key(app: App, width: u16, r: KeysPanel, i: int)
    requires
        call_ensures(key_list, (&app, width), r),
    ensures
        app.key_list is None ==> r is Message,
        app.key_list is Some && app.key_list->0.error is Some ==> r is Error && r->Error_0@
            == "Error: "@ + app.key_list->0.error->0@,
        app.key_list is Some && app.key_list->0.error is None ==> {
            let l = app.key_list->0;
            &&& r is List
            &&& r->List_rows@.len() == l.keys@.len()
            &&& r->List_selected == app.key_sel
            &&& 0 <= i < l.keys@.len() && width >= 4 ==> r->List_rows@[i]@ == truncated(
                l.keys@[i]@,
                (width - 4) as nat,
            )
            &&& l.capped ==> r->List_title@ == " "@ + l.namespace@ + " · "@ + shown_type(
                l.key_type@,
            ) + " — "@ + dec(l.keys@.len()) + " keys"@ + " (sample capped) "@
            &&& !l.capped ==> r->List_title@ == " "@ + l.namespace@ + " · "@ + shown_type(
                l.key_type@,
            ) + " — "@ + dec(l.keys@.len()) + " keys"@ + " "@
        },
{
    if app.key_list is Some && app.key_list->0.error is None {
        let t = texts(r->List_rows@);
        assert(t.len() == r->List_rows@.len());
        if 0 <= i < app.key_list->0.keys@.len() {
            assert(t[i] == r->List_rows@[i]@);
        }
    }
}

/// The value view shows the error, the hex dump if it is chosen and there is
/// one, or the text; it names the type, the compression and where an embedded
/// stream begins, the size, the number of elements and the TTL.
pub proof fn value_view_shows_the_value(app: App, width: u16, ttl: &str, r: ValuePanel, v: KeyValue)
    requires
        call_ensures(value_with, (&app, width, ttl), r),
        app.key_value == Some(v),
    ensures
        r is Shown,
        ({
            let t = r->Shown_0;
            let kind = line_of(t.kind@);
            let facts = line_of(t.facts@);
            &&& v.error is Some ==> t.failed && t.body@ == "Error: "@ + v.error->0@
            &&& v.error is None && app.value_hex && v.hex is Some ==> !t.failed && t.body@
                == v.hex->0@
            &&& v.error is None && (!app.value_hex || v.hex is None) ==> !t.failed && t.body@
                == v.body@
            &&& t.scroll == app.value_scroll
            &&& width >= 4 ==> t.key@ == truncated(v.key@, (width - 4) as nat)
            &&& kind[1].text == v.redis_type@
            &&& v.encoding is None || v.encoding->0 == Encoding::Plain ==> kind.len() == 2
            &&& v.encoding is Some && v.encoding->0 != Encoding::Plain ==> kind.len() == 4
            &&& v.encoding == Some(Encoding::Gzip) && (v.stream_offset is None
                || v.stream_offset->0 == 0) ==> kind[3].text == "decompressed from "@ + "gzip"@
            &&& v.encoding == Some(Encoding::Zlib) && (v.stream_offset is None
                || v.stream_offset->0 == 0) ==> kind[3].text == "decompressed from "@
                + "zlib/deflate"@
            &&& v.encoding == Some(Encoding::Zstd) && (v.stream_offset is None
                || v.stream_offset->0 == 0) ==> kind[3].text == "decompressed from "@ + "zstd"@
            &&& v.encoding == Some(Encoding::Zlib) && v.stream_offset is Some && v.stream_offset->0
                > 0 ==> kind[3].text == "decompressed "@ + "zlib/deflate"@
                + " (embedded at offset "@ + dec(v.stream_offset->0 as nat) + ")"@
            &&& v.encoding == Some(Encoding::Gzip) && v.stream_offset is Some && v.stream_offset->0
                > 0 ==> kind[3].text == "decompressed "@ + "gzip"@ + " (embedded at offset "@ + dec(
                v.stream_offset->0 as nat,
            ) + ")"@
            &&& v.encoding == Some(Encoding::Zstd) && v.stream_offset is Some && v.stream_offset->0
                > 0 ==> kind[3].text == "decompressed "@ + "zstd"@ + " (embedded at offset "@ + dec(
                v.stream_offset->0 as nat,
            ) + ")"@
            &&& facts.last().text == "ttl "@ + ttl@
            &&& v.size_bytes is Some ==> facts[0].text == "size "@ + size_text(v.size_bytes->0)
                + "   "@
            &&& v.elements is Some ==> facts[facts.len() - 2].text == "elements "@ + dec(
                v.elements->0 as nat,
            ) + "   "@
            &&& facts.len() == 1 + (if v.size_bytes is Some {
                1int
            } else {
                0
            }) + (if v.elements is Some {
                1int
            } else {
                0
            })
        }),
{
}

/// The page follows the screen, and the tab bar marks the tab that is open.
pub proof fn the_frame_follows_the_state(
    app: App,
    p: Page,
    tab: Tab,
    advanced: bool,
    bar: (Vec<String>, usize),
)
    requires
        call_ensures(page, (&app,), p),
        call_ensures(tab_bar, (tab, advanced), bar),
    ensures
        app.screen == Screen::Keys ==> p == Page::Keys,
        app.screen == Screen::Value ==> p == Page::Value,
        app.screen == Screen::Running ==> p == Page::Running(app.tab),
        app.screen is Picking ==> p == (Page::Picker { selected: app.screen->selected }),
        !advanced ==> texts(bar.0@) == seq!["Browse"@],
        advanced ==> texts(bar.0@) == seq!["Browse"@, "Biggest keys"@, "Persistent"@],
        advanced && tab == Tab::Browse ==> bar.1 == 0,
        advanced && tab == Tab::Biggest ==> bar.1 == 1,
        advanced && tab == Tab::Persistent ==> bar.1 == 2,
{
    if advanced {
        assert(texts(bar.0@) =~= seq!["Browse"@, "Biggest keys"@, "Persistent"@]);
    } else {
        assert(texts(bar.0@) =~= seq!["Browse"@]);
    }
}

/// The title of the value view says which view is shown, and how to get to the
/// other one if there is one.
pub proof fn value_titles_name_the_view(v: KeyValue, hex: bool)
    requires
        v.error is None,
    ensures
        hex && v.hex is Some && v.size_bytes is Some ==> crate::screens::value_title(v, hex)
            == " Value · hex · "@ + dec(v.size_bytes->0 as nat) + " bytes  (x: show text) "@,
        !hex && v.hex is Some && v.is_binary ==> crate::screens::value_title(v, hex) == " Value"@
            + " · binary, shown as text"@ + "  (x: show hex) "@,
        !hex && v.hex is Some && !v.is_binary ==> crate::screens::value_title(v, hex) == " Value"@
            + "  (x: show hex) "@,
        v.hex is None && !v.is_binary ==> crate::screens::value_title(v, hex) == " Value"@ + " "@,
{
    assert(" Value"@ + Seq::<char>::empty() =~= " Value"@);
}

} // verus!
