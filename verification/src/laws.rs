//! What the operations promise, stated over their inputs and results alone.

use crate::cleanup::{plan, report, script_flag, CleanupArgs, Plan, Totals};
use crate::connection::{limits, timed_out, Limits};
use crate::get::{
    expires_at, expires_from, header_with, json_fields, outcome, GetArgs, JsonFields, Outcome,
};
use crate::grouping::{normalize_type, parse_key, ParsedKey};
use crate::insights::{
    launch, Delivery, Format, InsightsCmd, Launch, Mode, ReportArgs, ScanArgs, TUI_DEFAULT_BIGGEST,
};
use crate::inspect::{
    coll_cap, count_command, escape_key, offset_of_expiry, probe_commands, read_command, reading,
    ttl_from, ttl_with_expiry, unescape_key, words_of, KeyValue, Reading,
};
use crate::moment::{clock_gave, in_calendar, local_text, rfc3339_text, zone_gave};
use crate::report::{size_text, ReportOptions};
use crate::rows::{
    display_key, display_type, filtered_namespaces, filtered_types, persistent_rows, NsRow,
    PersistRow, Sort, TypeRow,
};
use crate::scanner::ScanOptions;
use crate::serverinfo::{field, parse_info, ServerInfo};
use crate::stats::Stats;
use crate::text::{
    contains, dec, ends_with, lex_lt, lossy, lowercase, number, starts_with, text_of,
};
use crate::value::{decode, gunzipped, hex_dump, inflated, stream_at, unzstd, Decoded, Encoding};
use vstd::prelude::*;
use vstd::utf8::encode_utf8;

verus! {

// ---------------------------------------------------------------------------
// Values
// ---------------------------------------------------------------------------

/// Decoding shows the first stream of a value that yields something, whatever
/// stands before it, and says where it begins.
pub proof fn decoding_shows_the_first_stream(bytes: Vec<u8>, cap: usize, r: Decoded, i: int)
    requires
        call_ensures(decode, (&bytes, cap), r),
        0 <= i,
        i + 1 < bytes@.len(),
    ensures
        ({
            let b = bytes@;
            let gzip = b[i] == 0x1f && b[i + 1] == 0x8b && gunzipped(b.skip(i)) is Some && gunzipped(
                b.skip(i),
            )->0.len() > 0;
            let zlib = b[i] == 0x78 && (b[i + 1] == 0x01 || b[i + 1] == 0x5e || b[i + 1] == 0x9c
                || b[i + 1] == 0xda) && inflated(b.skip(i)) is Some && inflated(b.skip(i))->0.len()
                > 0;
            let zstd = i + 3 < b.len() && b[i] == 0x28 && b[i + 1] == 0xb5 && b[i + 2] == 0x2f && b[i
                + 3] == 0xfd && unzstd(b.skip(i)) is Some && unzstd(b.skip(i))->0.len() > 0;
            &&& gzip || zlib || zstd ==> r.stream_offset is Some && r.stream_offset->0 <= i
            &&& r.stream_offset is Some && r.stream_offset->0 == i ==> {
                &&& gzip || zlib || zstd
                &&& gzip ==> r.encoding == Encoding::Gzip && shows_bytes(
                    r,
                    gunzipped(b.skip(i))->0,
                    cap,
                )
                &&& zlib ==> r.encoding == Encoding::Zlib && shows_bytes(
                    r,
                    inflated(b.skip(i))->0,
                    cap,
                )
                &&& zstd ==> r.encoding == Encoding::Zstd && shows_bytes(
                    r,
                    unzstd(b.skip(i))->0,
                    cap,
                )
            }
        }),
{
    crate::value::streams_are_told_by_their_first_bytes(bytes@, i);
    let b = bytes@;
    if r.stream_offset is Some && r.stream_offset->0 == i {
        shown(r, stream_at(b, i)->0, cap);
    }
}

/// A value without a stream is shown as it is.
pub proof fn plain_values_are_shown_as_they_are(bytes: Vec<u8>, cap: usize, r: Decoded)
    requires
        call_ensures(decode, (&bytes, cap), r),
        forall|i: int| 0 <= i < bytes@.len() ==> #[trigger] stream_at(bytes@, i) is None,
    ensures
        r.stream_offset is None,
        r.encoding == Encoding::Plain,
        shows_bytes(r, bytes@, cap),
{
    shown(r, bytes@, cap);
}

/// The text view begins as the text of the bytes does, up to the cap, and the
/// value is binary if that text has something unreadable.
pub open spec fn shows_bytes(d: Decoded, data: Seq<u8>, cap: usize) -> bool {
    let t = lossy(data);
    &&& t.len() <= cap ==> d.text@ == t
    &&& t.len() > cap ==> d.text@.take(cap as int) == t.take(cap as int) && d.text@.skip(cap as int)
        == "\n… (truncated)"@
    &&& d.is_binary <==> exists|i: int|
        0 <= i < t.len() && ({
            let c = #[trigger] t[i] as u32;
            c == 0xfffd || c == 0x7f || c <= 0x08 || c == 0x0b || c == 0x0c || 0x0e <= c <= 0x1f
        })
    &&& data.len() <= cap ==> d.hex@ == crate::value::hex_lines(data, 0)
    &&& data.len() > cap ==> d.hex@ == crate::value::hex_lines(data.take(cap as int), 0)
}

proof fn shown(d: Decoded, data: Seq<u8>, cap: usize)
    requires
        crate::value::shows(d, data, cap),
    ensures
        shows_bytes(d, data, cap),
{
    crate::value::binary_means_unreadable(d.is_binary, d.text@, d.hex@, data, cap);
    crate::value::text_view_is_the_text(d.is_binary, d.text@, d.hex@, data, cap);
}

/// A hex dump has every byte at its place.
pub proof fn hex_dumps_show_every_byte(b: Vec<u8>, r: String, k: int)
    requires
        call_ensures(hex_dump, (&b,), r),
        0 <= k < b@.len(),
        b@.len() <= 0x1_0000_0000,
    ensures
        ({
            let line = 77 * (k / 16);
            let place = k % 16;
            &&& crate::value::hex_value(r@.subrange(line, line + 8)) == k - place
            &&& crate::value::hex_value(
                r@.subrange(line + 10 + 3 * place, line + 12 + 3 * place),
            ) == b@[k]
            &&& r@[line + 60 + place] == (if 0x20 <= b@[k] <= 0x7e {
                b@[k] as char
            } else {
                '.'
            })
        }),
{
    crate::value::dump_shows_every_byte(b@, 0, k);
}

// ---------------------------------------------------------------------------
// Expiry
// ---------------------------------------------------------------------------

/// A TTL is shown with the date that lies so many seconds after what the clock
/// gave, at the offset that the time zone gave for that date.
pub proof fn expiry_is_the_reading_plus_the_ttl(ttl: i64, r: String) -> (m: (i64, u32, i32))
    requires
        call_ensures(ttl_with_expiry, (Some(ttl),), r),
        ttl >= 0,
    ensures
        clock_gave(m.0, m.1),
        m.0 + ttl <= 8_210_266_876_799 ==> {
            &&& zone_gave((m.0 + ttl) as i64, m.2)
            &&& r@ == dec(ttl as nat) + "s"@ + (" (expires "@ + local_text(
                (m.0 + ttl) as i64,
                m.2,
            ) + ")"@)
        },
{
    let (now, nanos, offset) = choose|now: i64, nanos: u32, offset: i32|
        {
            &&& #[trigger] clock_gave(now, nanos)
            &&& in_calendar(now)
            &&& #[trigger] offset_of_expiry(Some(ttl), now, offset)
            &&& r@ == crate::inspect::ttl_text_from(Some(ttl), now, offset)
        };
    crate::inspect::ttl_shows_when_it_runs_out(Some(ttl), now, offset);
    (now, nanos, offset)
}

/// A TTL that never runs out, or is not known, has no date.
pub proof fn only_expiring_keys_have_a_date(ttl: Option<i64>, r: String, s: Option<String>)
    requires
        call_ensures(ttl_with_expiry, (ttl,), r),
        call_ensures(expires_at, (ttl,), s),
        ttl is None || ttl->0 < 0,
    ensures
        ttl == Some(-1i64) ==> r@ == "persistent"@,
        ttl != Some(-1i64) ==> r@ == "-"@,
        s is None,
{
}

/// Two TTLs read at the same moment run out as far apart as they differ.
pub proof fn equal_moments_are_written_equally(
    a: i64,
    b: i64,
    now_a: i64,
    now_b: i64,
    offset: i32,
    r: String,
    s: String,
)
    requires
        in_calendar(now_a),
        in_calendar(now_b),
        call_ensures(ttl_from, (Some(a), now_a, offset), r),
        call_ensures(ttl_from, (Some(b), now_b, offset), s),
        a >= 0,
        b >= 0,
        now_a + a == now_b + b,
        now_a + a <= 8_210_266_876_799,
    ensures
        exists|when: Seq<char>|
            {
                &&& r@ == dec(a as nat) + "s"@ + (" (expires "@ + when + ")"@)
                &&& s@ == #[trigger] (dec(b as nat) + "s"@ + (" (expires "@ + when + ")"@))
            },
{
    crate::inspect::ttl_shows_when_it_runs_out(Some(a), now_a, offset);
    crate::inspect::ttl_shows_when_it_runs_out(Some(b), now_b, offset);
    let when = local_text((now_a + a) as i64, offset);
    assert(s@ == dec(b as nat) + "s"@ + (" (expires "@ + when + ")"@));
}

/// The timestamp of a key is that of the moment so many seconds after the
/// reading.
pub proof fn timestamps_are_the_reading_plus_the_ttl(
    ttl: i64,
    now: i64,
    nanos: u32,
    offset: i32,
    r: Option<String>,
)
    requires
        in_calendar(now),
        call_ensures(expires_from, (Some(ttl), now, nanos, offset), r),
    ensures
        r is Some <==> ttl > 0 && now + ttl <= 8_210_266_876_799,
        r is Some ==> r->0@ == rfc3339_text((now + ttl) as i64, nanos, offset),
{
}

// ---------------------------------------------------------------------------
// Rows
// ---------------------------------------------------------------------------

/// The types of a namespace are listed by the figure that the sort order names.
pub proof fn types_descend_by_the_chosen_figure(
    stats: Stats,
    ns: &str,
    filter: &str,
    sort: Sort,
    r: Vec<TypeRow>,
    i: int,
    j: int,
)
    requires
        stats.wf(),
        call_ensures(filtered_types, (&stats, ns, filter, sort), r),
        0 <= i < j < r@.len(),
    ensures
        sort == Sort::Count ==> r@[i].keys >= r@[j].keys,
        sort == Sort::TotalMem ==> r@[i].total_bytes >= r@[j].total_bytes,
        sort == Sort::AvgMem ==> r@[i].avg_bytes >= r@[j].avg_bytes,
        r@[i].name@ != r@[j].name@,
{
    crate::text::lex_irreflexive(r@[i].name@);
    if r@[i].name@ == r@[j].name@ {
        assert(crate::rows::type_above(sort, r@[i], r@[j]));
    }
}

/// Every type row shows the figures of the type that it names, and every type
/// is shown when nothing is filtered.
pub proof fn type_rows_show_their_own_figures(
    stats: Stats,
    ns: &str,
    filter: &str,
    sort: Sort,
    r: Vec<TypeRow>,
    i: int,
    name: Seq<char>,
)
    requires
        stats.wf(),
        stats.namespaces@.contains_key(ns@),
        call_ensures(filtered_types, (&stats, ns, filter, sort), r),
    ensures
        0 <= i < r@.len() ==> {
            let t = stats.namespaces@[ns@]@[r@[i].name@];
            &&& stats.namespaces@[ns@]@.contains_key(r@[i].name@)
            &&& r@[i].keys == t.count
            &&& r@[i].total_bytes == t.total_bytes
            &&& t.measured > 0 ==> r@[i].avg_bytes == t.total_bytes as int / t.measured as int
            &&& t.measured == 0 ==> r@[i].avg_bytes == 0
            &&& r@[i].persistent == t.persistent
            &&& r@[i].expiring == t.expiring
        },
        stats.namespaces@[ns@]@.contains_key(name) && (lowercase(filter@).len() == 0 || contains(
            lowercase(name),
            lowercase(filter@),
        )) ==> exists|k: int| 0 <= k < r@.len() && (#[trigger] r@[k]).name@ == name,
{
    let m = stats.namespaces@[ns@];
    assert(crate::rows::lists_types(m, filter@, sort, r@));
    if 0 <= i < r@.len() {
        assert(m@.contains_key(r@[i].name@));
    }
    assert(contains(lowercase(name), lowercase(filter@)) == crate::rows::matches_filter(
        name,
        filter@,
    ));
}

/// Namespaces are listed by their keys, or by their memory when a memory order
/// is chosen, with the figures of the namespace that each row names.
pub proof fn namespaces_descend_by_the_chosen_figure(
    stats: Stats,
    filter: &str,
    sort: Sort,
    r: Vec<NsRow>,
    i: int,
    j: int,
)
    requires
        stats.wf(),
        call_ensures(filtered_namespaces, (&stats, filter, sort), r),
        0 <= i < j < r@.len(),
    ensures
        sort == Sort::Count ==> r@[i].keys >= r@[j].keys,
        sort != Sort::Count ==> r@[i].bytes >= r@[j].bytes,
        r@[i].keys == stats.keys_under(r@[i].name@),
        r@[i].bytes == stats.bytes_under(r@[i].name@),
        r@[i].name@ != r@[j].name@,
        lowercase(filter@).len() == 0 || contains(lowercase(r@[i].name@), lowercase(filter@)),
{
    crate::text::lex_irreflexive(r@[i].name@);
    assert(crate::rows::lists_namespaces(stats, filter@, sort, r@));
    if r@[i].name@ == r@[j].name@ {
        assert(crate::rows::ns_above(sort, r@[i], r@[j]));
    }
}

/// Persistent keys are listed by the memory that expiry cannot free, and by
/// their number where that is equal.
pub proof fn persistent_rows_descend_by_memory(
    stats: Stats,
    r: Vec<PersistRow>,
    i: int,
    j: int,
)
    requires
        stats.wf(),
        call_ensures(persistent_rows, (&stats,), r),
        0 <= i < j < r@.len(),
    ensures
        r@[i].bytes > r@[j].bytes || (r@[i].bytes == r@[j].bytes && r@[i].keys >= r@[j].keys),
        r@[i].keys > 0,
        r@[i].keys == stats.namespaces@[r@[i].namespace@]@[r@[i].key_type@].persistent,
        r@[i].bytes == stats.namespaces@[r@[i].namespace@]@[r@[i].key_type@].persistent_bytes,
{
    assert(crate::rows::lists_persistent(stats, r@));
    assert(crate::rows::persist_above(r@[i], r@[j]));
}

/// The tag marker at the front of a type name reads as a tag set; any other
/// name is shown as it is.
pub proof fn tag_sets_are_named(rest: Seq<char>, name: &str, r: String)
    requires
        call_ensures(display_type, (name,), r),
    ensures
        name@ == "\\x01tags\\x01"@ + rest ==> r@ == "🏷 "@ + rest + "  (tag set)"@,
        !starts_with(name@, "\\x01tags\\x01"@) ==> r@ == name@,
{
    if name@ == "\\x01tags\\x01"@ + rest {
        let k = "\\x01tags\\x01"@.len() as int;
        assert(name@.subrange(0, k) =~= "\\x01tags\\x01"@);
        assert(name@.skip(k) =~= rest);
    }
}

/// The first tag marker in a key reads as a tag set, and the rest of the key
/// stays; a key without one is shown as it is.
pub proof fn tag_keys_are_named(key: &str, r: String, i: int)
    requires
        call_ensures(display_key, (key,), r),
    ensures
        !contains(key@, "\\x01tags\\x01"@) ==> r@ == key@,
        crate::rows::marker_at(key@, i) ==> r@ == key@.take(i) + "🏷 tags » "@ + key@.skip(i + 12),
{
    reveal_strlit("\\x01tags\\x01");
    if crate::rows::marker_at(key@, i) {
        let tag = crate::rows::TAG_MARKER@;
        assert(contains(key@, tag));
        let c = choose|c: int| crate::rows::marker_at(key@, c);
        if c < i {
            assert(!crate::text::occurs_at(key@, tag, c));
        } else if i < c {
            assert(!crate::text::occurs_at(key@, tag, i));
        }
    }
}

// ---------------------------------------------------------------------------
// Options
// ---------------------------------------------------------------------------

/// A scan collects what a flag asks for, what `full` covers, and everything at
/// advanced depth; nothing that was not asked for.
pub proof fn scans_collect_what_is_asked_for(a: ScanArgs, advanced: bool, o: ScanOptions)
    requires
        call_ensures(ScanArgs::scan_options, (&a, advanced), o),
    ensures
        o.want_memory <==> advanced || a.full || a.memory || a.biggest > 0,
        o.want_types <==> advanced || a.full || a.types,
        o.want_ttl <==> advanced || a.full || a.ttl,
        a.biggest > 0 || !advanced ==> o.biggest == a.biggest,
        a.biggest == 0 && advanced ==> o.biggest == TUI_DEFAULT_BIGGEST && o.biggest > 0,
        o.count == a.count,
        o.limit == a.limit,
        o.namespace_len == a.namespace_len,
{
}

/// A report shows exactly what its scan collects.
pub proof fn reports_show_what_is_collected(a: ReportArgs, r: ReportOptions, o: ScanOptions)
    requires
        call_ensures(ReportArgs::options, (&a,), r),
        call_ensures(ScanArgs::scan_options, (&a.scan, false), o),
    ensures
        r.show_memory == o.want_memory,
        r.show_types == o.want_types,
        r.show_ttl == o.want_ttl,
        r.biggest == o.biggest,
        r.top == a.top,
{
}

/// The viewer asks for a depth exactly if neither a statistic nor a mode was
/// chosen, and a chosen statistic is honored as it is.
pub proof fn depth_is_asked_for_once(a: ScanArgs, p: Option<bool>)
    requires
        call_ensures(ScanArgs::preset, (&a,), p),
    ensures
        p is None <==> !a.memory && !a.types && !a.ttl && !a.full && a.biggest == 0
            && a.mode is None,
        a.memory || a.types || a.ttl || a.full || a.biggest > 0 ==> p == Some(false),
        !a.memory && !a.types && !a.ttl && !a.full && a.biggest == 0 && a.mode == Some(
            Mode::Advanced,
        ) ==> p == Some(true),
        !a.memory && !a.types && !a.ttl && !a.full && a.biggest == 0 && a.mode is Some
            && a.mode->0 != Mode::Advanced ==> p == Some(false),
{
}

/// A bare command opens the viewer only on a terminal; a subcommand runs
/// anywhere.
pub proof fn subcommands_run_anywhere(cmd: Option<InsightsCmd>, on_terminal: bool, r: Launch)
    requires
        call_ensures(launch, (&cmd, on_terminal), r),
    ensures
        cmd is None ==> (r == Launch::Tui <==> on_terminal) && r != Launch::Report,
        cmd is Some ==> r != Launch::Hint,
        cmd is Some ==> (r == Launch::Tui <==> cmd->0 is Tui),
{
}

/// Tables go to the terminal alone: a file gets Markdown in their place.
pub proof fn files_never_hold_tables(a: ReportArgs, r: Delivery)
    requires
        call_ensures(ReportArgs::delivery, (&a,), r),
    ensures
        r == Delivery::Tables <==> a.format == Format::Table && a.output is None,
        r == Delivery::MarkdownInsteadOfTable <==> a.format == Format::Table && a.output is Some,
        r == Delivery::Json <==> a.format == Format::Json,
        r == Delivery::Markdown <==> a.format == Format::Markdown,
{
}

// ---------------------------------------------------------------------------
// Cleanup
// ---------------------------------------------------------------------------

/// Without `apply` a cleanup run is a dry run, the script is told so, and so is
/// whoever reads along.
pub proof fn cleanup_changes_nothing_unasked(
    args: CleanupArgs,
    p: Plan,
    flag: String,
    t: Totals,
    summary: String,
)
    requires
        call_ensures(plan, (&args,), p),
        call_ensures(script_flag, (p.dry_run,), flag),
        call_ensures(report, (p.dry_run, &t), summary),
    ensures
        p.dry_run <==> !args.apply,
        flag@ == "1"@ <==> !args.apply,
        flag@ == "0"@ <==> args.apply,
        p.workers >= 1,
        args.concurrency >= 1 ==> p.workers == args.concurrency,
        p.notice is None <==> args.json,
        !args.apply ==> ends_with(
            summary@,
            "Dry run complete — re-run with --apply to perform the cleanup.\n"@,
        ),
        args.apply ==> ends_with(summary@, "Cleanup complete.\n"@),
{
    reveal_strlit("0");
    reveal_strlit("1");
    assert("0"@[0] == '0' && "1"@[0] == '1');
    let dry = " (would delete)\n\nDry run complete — re-run with --apply to perform the cleanup.\n"@;
    let wet = "\n\nCleanup complete.\n"@;
    let a = "Dry run complete — re-run with --apply to perform the cleanup.\n"@;
    let b = "Cleanup complete.\n"@;
    reveal_strlit(
        " (would delete)\n\nDry run complete — re-run with --apply to perform the cleanup.\n",
    );
    reveal_strlit("Dry run complete — re-run with --apply to perform the cleanup.\n");
    reveal_strlit("\n\nCleanup complete.\n");
    reveal_strlit("Cleanup complete.\n");
    assert(dry.skip(dry.len() - a.len()) =~= a);
    assert(wet.skip(wet.len() - b.len()) =~= b);
    let n = summary@.len();
    if !args.apply {
        assert(summary@.subrange(n - a.len(), n as int) =~= a) by {
            assert(summary@.skip(n - dry.len()) =~= dry);
            assert(summary@.subrange(n - a.len(), n as int) =~= dry.skip(dry.len() - a.len()));
        }
    } else {
        assert(summary@.subrange(n - b.len(), n as int) =~= b) by {
            assert(summary@.skip(n - wet.len()) =~= wet);
            assert(summary@.subrange(n - b.len(), n as int) =~= wet.skip(wet.len() - b.len()));
        }
    }
}

/// A cleanup looks at tag sets alone, and at those of one namespace alone if
/// one is named: its pattern is the namespace, a colon and the tag marker.
pub proof fn cleanup_stays_in_its_namespace(args: CleanupArgs, p: Plan)
    requires
        call_ensures(plan, (&args,), p),
    ensures
        args.namespace is Some ==> p.pattern@ == args.namespace->0@ + ":\u{1}tags\u{1}*"@,
        args.namespace is None ==> p.pattern@ == "*\u{1}tags\u{1}*"@,
{
    reveal_strlit(":");
    reveal_strlit("*");
    reveal_strlit("\u{1}tags\u{1}");
    reveal_strlit(":\u{1}tags\u{1}*");
    reveal_strlit("*\u{1}tags\u{1}*");
    if args.namespace is Some {
        assert(p.pattern@ =~= args.namespace->0@ + ":\u{1}tags\u{1}*"@);
    } else {
        assert(p.pattern@ =~= "*\u{1}tags\u{1}*"@);
    }
}

/// The summary gives the three totals in order, in a dry run and otherwise.
pub proof fn summaries_give_the_totals(dry_run: bool, t: Totals, r: String)
    requires
        call_ensures(report, (dry_run, &t), r),
    ensures
        starts_with(r@, "\nTag keys processed:  "@ + dec(t.processed_keys as nat) + "\n"@),
        dry_run ==> contains(
            r@,
            "\nOrphaned members:    "@ + dec(t.removed_members as nat) + " (would remove)\n"@,
        ),
        dry_run ==> contains(
            r@,
            "\nEmpty tag sets:      "@ + dec(t.deleted_keys as nat) + " (would delete)\n"@,
        ),
        !dry_run ==> contains(
            r@,
            "\nOrphaned members removed: "@ + dec(t.removed_members as nat) + "\n"@,
        ),
        !dry_run ==> contains(
            r@,
            "\nEmpty tag sets deleted:   "@ + dec(t.deleted_keys as nat) + "\n"@,
        ),
{
    let p = dec(t.processed_keys as nat);
    let m = dec(t.removed_members as nat);
    let d = dec(t.deleted_keys as nat);
    reveal_strlit("\n");
    reveal_strlit("\nTag keys processed:  ");
    let head = "\nTag keys processed:  "@ + p;
    if dry_run {
        reveal_strlit("\nOrphaned members:    ");
        reveal_strlit(" (would remove)\n");
        reveal_strlit("\nEmpty tag sets:      ");
        reveal_strlit(" (would delete)\n");
        reveal_strlit(" (would remove)\nEmpty tag sets:      ");
        reveal_strlit(
            " (would delete)\n\nDry run complete — re-run with --apply to perform the cleanup.\n",
        );
        let x = "\nOrphaned members:    "@;
        let y = " (would remove)\nEmpty tag sets:      "@;
        let z = " (would delete)\n\nDry run complete — re-run with --apply to perform the cleanup.\n"@;
        assert(r@ == head + x + m + y + d + z);
        let first = head + "\n"@;
        assert(r@.subrange(0, first.len() as int) =~= first);
        let w = x + m + " (would remove)\n"@;
        let at = head.len() as int;
        assert(r@.subrange(at, at + w.len()) =~= w);
        assert(crate::text::occurs_at(r@, w, at));
        let v = "\nEmpty tag sets:      "@ + d + " (would delete)\n"@;
        let bt = (head.len() + x.len() + m.len() + 15) as int;
        assert(r@.subrange(bt, bt + v.len()) =~= v);
        assert(crate::text::occurs_at(r@, v, bt));
    } else {
        reveal_strlit("\nOrphaned members removed: ");
        reveal_strlit("\nEmpty tag sets deleted:   ");
        reveal_strlit("\n\nCleanup complete.\n");
        let x = "\nOrphaned members removed: "@;
        let y = "\nEmpty tag sets deleted:   "@;
        let z = "\n\nCleanup complete.\n"@;
        assert(r@ == head + x + m + y + d + z);
        let first = head + "\n"@;
        assert(r@.subrange(0, first.len() as int) =~= first);
        let w = x + m + "\n"@;
        let at = head.len() as int;
        assert(r@.subrange(at, at + w.len()) =~= w);
        assert(crate::text::occurs_at(r@, w, at));
        let v = y + d + "\n"@;
        let bt = (head.len() + x.len() + m.len()) as int;
        assert(r@.subrange(bt, bt + v.len()) =~= v);
        assert(crate::text::occurs_at(r@, v, bt));
    }
}

// ---------------------------------------------------------------------------
// Connections
// ---------------------------------------------------------------------------

/// An attempt has the time asked for, at least a second, and the whole at most
/// twice as long; the message names the latter.
pub proof fn connections_give_up_in_time(secs: u64, l: Limits, m: String)
    requires
        call_ensures(limits, (secs,), l),
        call_ensures(timed_out, (&l,), m),
        secs <= 0x7fff_ffff_ffff_ffff,
    ensures
        secs >= 1 ==> l.each == secs,
        secs == 0 ==> l.each == 1,
        l.overall == 2 * l.each,
        contains(m@, dec(2 * l.each as nat) + "s"@),
{
    reveal_strlit("s");
    reveal_strlit("s — check the host/port in --url");
    let a = "connection timed out after "@;
    let d = dec(l.overall as nat);
    let w = d + "s"@;
    assert(m@.subrange(a.len() as int, (a.len() + w.len()) as int) =~= w);
    assert(crate::text::occurs_at(m@, w, a.len() as int));
}

// ---------------------------------------------------------------------------
// Server info
// ---------------------------------------------------------------------------

/// Each field of the server's info has the value that its own key has in the
/// reply, a number only if that value is one.
pub proof fn info_fields_come_from_their_keys(text: &str, r: ServerInfo)
    requires
        call_ensures(parse_info, (text,), r),
    ensures
        text_of(r.redis_version) == field(text@, "redis_version"@),
        text_of(r.maxmemory_policy) == field(text@, "maxmemory_policy"@),
        text_of(r.mem_fragmentation_ratio) == field(text@, "mem_fragmentation_ratio"@),
        r.used_memory is Some ==> field(text@, "used_memory"@) is Some && number(
            field(text@, "used_memory"@)->0,
        ) == r.used_memory,
        r.used_memory is None ==> field(text@, "used_memory"@) is None || number(
            field(text@, "used_memory"@)->0,
        ) is None,
        r.maxmemory is Some ==> field(text@, "maxmemory"@) is Some && number(
            field(text@, "maxmemory"@)->0,
        ) == r.maxmemory,
        r.maxmemory is None ==> field(text@, "maxmemory"@) is None || number(
            field(text@, "maxmemory"@)->0,
        ) is None,
        r.evicted_keys is Some ==> field(text@, "evicted_keys"@) is Some && number(
            field(text@, "evicted_keys"@)->0,
        ) == r.evicted_keys,
        r.evicted_keys is None ==> field(text@, "evicted_keys"@) is None || number(
            field(text@, "evicted_keys"@)->0,
        ) is None,
        r.connected_clients is Some ==> field(text@, "connected_clients"@) is Some && number(
            field(text@, "connected_clients"@)->0,
        ) == r.connected_clients,
        r.connected_clients is None ==> field(text@, "connected_clients"@) is None || number(
            field(text@, "connected_clients"@)->0,
        ) is None,
{
}

// ---------------------------------------------------------------------------
// Keys and values
// ---------------------------------------------------------------------------

/// A key of the form `namespace:body` has that namespace; its type is the
/// body's, and never empty.
pub proof fn keys_split_at_the_first_colon(
    key: &str,
    namespace_len: usize,
    r: ParsedKey,
    ns: Seq<char>,
    body: &str,
    t: String,
)
    requires
        call_ensures(parse_key, (key, namespace_len), r),
        call_ensures(normalize_type, (body,), t),
        key@ == ns.push(':') + body@,
        !ns.contains(':'),
        !ns.contains('\u{1}'),
        !body@.contains('\u{1}'),
    ensures
        r.namespace@ == ns,
        r.key_type@ == t@,
        t@.len() > 0,
{
    crate::grouping::first_colon_ends_the_namespace(
        ns,
        body@,
        namespace_len as nat,
        Seq::<char>::empty(),
    );
}

/// What is read of a value depends on its type, and collections are read up to
/// a cap that is never below five hundred elements.
pub proof fn values_are_read_by_their_type(
    kind: &str,
    how: Reading,
    key: Vec<u8>,
    cap: usize,
    c: Vec<Vec<u8>>,
    n: Vec<Vec<u8>>,
    limit: usize,
)
    requires
        call_ensures(reading, (kind,), how),
        call_ensures(read_command, (how, &key, cap), c),
        call_ensures(count_command, (how, &key), n),
        call_ensures(coll_cap, (cap,), limit),
    ensures
        kind@ == "string"@ ==> words_of(c@) == seq![encode_utf8("GET"@), key@],
        kind@ == "set"@ ==> words_of(c@) == seq![encode_utf8("SMEMBERS"@), key@],
        kind@ == "hash"@ ==> words_of(c@) == seq![encode_utf8("HGETALL"@), key@],
        kind@ == "list"@ ==> words_of(c@) == seq![
            encode_utf8("LRANGE"@),
            key@,
            encode_utf8("0"@),
            encode_utf8(dec((limit - 1) as nat)),
        ] && words_of(n@) == seq![encode_utf8("LLEN"@), key@],
        kind@ == "zset"@ ==> words_of(c@) == seq![
            encode_utf8("ZRANGE"@),
            key@,
            encode_utf8("0"@),
            encode_utf8(dec((limit - 1) as nat)),
            encode_utf8("WITHSCORES"@),
        ] && words_of(n@) == seq![encode_utf8("ZCARD"@), key@],
        limit >= 500,
        limit == 500 || limit == cap / 32,
        cap / 32 >= 500 ==> limit == cap / 32,
{
    reveal_strlit("string");
    reveal_strlit("set");
    reveal_strlit("list");
    reveal_strlit("hash");
    reveal_strlit("zset");
    assert("string"@.len() == 6 && "set"@.len() == 3 && "list"@.len() == 4 && "hash"@.len() == 4
        && "zset"@.len() == 4);
    assert("list"@[0] == 'l' && "hash"@[0] == 'h' && "zset"@[0] == 'z');
}

/// A key is asked for its type, its TTL and its memory, by its own bytes.
pub proof fn keys_are_probed_by_their_bytes(key: Vec<u8>, r: Vec<Vec<Vec<u8>>>)
    requires
        call_ensures(probe_commands, (&key,), r),
    ensures
        r@.len() == 3,
        words_of(r@[0]@) == seq![encode_utf8("TYPE"@), key@],
        words_of(r@[1]@) == seq![encode_utf8("TTL"@), key@],
        words_of(r@[2]@) == seq![encode_utf8("MEMORY"@), encode_utf8("USAGE"@), key@],
{
    let c = crate::inspect::commands_of(r@);
    assert(c == crate::inspect::probe_words(key@));
    assert(c.len() == 3 && c.len() == r@.len());
    assert(c[0] == words_of(r@[0]@) && c[1] == words_of(r@[1]@) && c[2] == words_of(r@[2]@));
}

// ---------------------------------------------------------------------------
// The get command
// ---------------------------------------------------------------------------

/// A value that could not be read makes `get` fail with its error, whatever the
/// flags; any other is printed in the form that the flags ask for.
pub proof fn get_prints_what_is_asked_for(
    args: GetArgs,
    v: KeyValue,
    on_terminal: bool,
    r: Outcome,
)
    requires
        call_ensures(outcome, (&args, &v, on_terminal), r),
    ensures
        r is Fail <==> v.error is Some,
        r is Fail ==> r->Fail_0@ == v.error->0@,
        r is Json <==> v.error is None && args.json,
        r is Hex <==> v.error is None && !args.json && args.hex && v.hex is Some,
        r is NoHex <==> v.error is None && !args.json && args.hex && v.hex is None,
        r is Text <==> v.error is None && !args.json && !args.hex,
        r is Hex ==> r->Hex_text@ == v.hex->0@,
        r is Text ==> r->Text_text@ == v.body@,
        r is Hex ==> (r->Hex_header <==> args.header || (on_terminal && !args.raw)),
        r is NoHex ==> (r->NoHex_header <==> args.header || (on_terminal && !args.raw)),
        r is Text ==> (r->Text_header <==> args.header || (on_terminal && !args.raw)),
{
}

/// The JSON object carries the value and its metadata as they are.
pub proof fn json_carries_the_value(v: KeyValue, e: Option<String>, r: JsonFields)
    requires
        call_ensures(json_fields, (&v, e), r),
    ensures
        r.key@ == v.key@,
        r.redis_type@ == v.redis_type@,
        r.value@ == v.body@,
        r.ttl == v.ttl,
        r.expires_at == e,
        r.size_bytes == v.size_bytes,
        r.elements == v.elements,
        r.is_binary == v.is_binary,
        r.encoding is Some <==> v.encoding is Some,
        v.encoding == Some(Encoding::Gzip) ==> r.encoding->0@ == "gzip"@,
        v.encoding == Some(Encoding::Zlib) ==> r.encoding->0@ == "zlib/deflate"@,
        v.encoding == Some(Encoding::Zstd) ==> r.encoding->0@ == "zstd"@,
        v.encoding == Some(Encoding::Plain) ==> r.encoding->0@ == "plain"@,
        r.embedded_offset is Some <==> v.stream_offset is Some && v.stream_offset->0 > 0,
        r.embedded_offset is Some ==> r.embedded_offset == v.stream_offset,
{
}

/// The header names the type first, then the size and the elements if they are
/// known, the TTL, the compression with the offset of an embedded stream, and
/// whether the value is binary.
pub proof fn headers_name_what_is_known(v: KeyValue, ttl: &str, r: String)
    requires
        call_ensures(header_with, (&v, ttl), r),
    ensures
        ({
            let p = crate::get::header_parts(v, ttl@);
            let size = if v.size_bytes is Some {
                1int
            } else {
                0
            };
            let elements = if v.elements is Some {
                1int
            } else {
                0
            };
            let packed = if v.encoding is Some && v.encoding->0 != Encoding::Plain {
                1int
            } else {
                0
            };
            let binary = if v.is_binary {
                1int
            } else {
                0
            };
            &&& r@ == "# "@ + crate::text::joined(p, "  "@)
            &&& p.len() == 2 + size + elements + packed + binary
            &&& p[0] == "type="@ + v.redis_type@
            &&& v.size_bytes is Some ==> p[1] == "size="@ + size_text(v.size_bytes->0)
            &&& v.elements is Some ==> p[1 + size] == "elements="@ + dec(v.elements->0 as nat)
            &&& p[1 + size + elements] == "ttl="@ + ttl@
            &&& v.is_binary ==> p.last() == "binary"@
            &&& v.encoding == Some(Encoding::Gzip) && (v.stream_offset is None
                || v.stream_offset->0 == 0) ==> p[2 + size + elements] == "decompressed="@
                + "gzip"@
            &&& v.encoding == Some(Encoding::Zlib) && (v.stream_offset is None
                || v.stream_offset->0 == 0) ==> p[2 + size + elements] == "decompressed="@
                + "zlib/deflate"@
            &&& v.encoding == Some(Encoding::Zstd) && (v.stream_offset is None
                || v.stream_offset->0 == 0) ==> p[2 + size + elements] == "decompressed="@
                + "zstd"@
            &&& v.encoding == Some(Encoding::Gzip) && v.stream_offset is Some && v.stream_offset->0
                > 0 ==> p[2 + size + elements] == "decompressed="@ + "gzip"@ + " (embedded @ "@
                + dec(v.stream_offset->0 as nat) + ")"@
            &&& v.encoding == Some(Encoding::Zlib) && v.stream_offset is Some && v.stream_offset->0
                > 0 ==> p[2 + size + elements] == "decompressed="@ + "zlib/deflate"@
                + " (embedded @ "@ + dec(v.stream_offset->0 as nat) + ")"@
            &&& v.encoding == Some(Encoding::Zstd) && v.stream_offset is Some && v.stream_offset->0
                > 0 ==> p[2 + size + elements] == "decompressed="@ + "zstd"@ + " (embedded @ "@
                + dec(v.stream_offset->0 as nat) + ")"@
        }),
{
}

// ---------------------------------------------------------------------------
// Collections
// ---------------------------------------------------------------------------

/// A value that cannot be read carries its error from the start, any other one
/// none; nothing but its description is known yet.
pub proof fn new_values_know_their_description(
    key: &str,
    kind: &str,
    ttl: Option<i64>,
    size: Option<u64>,
    r: KeyValue,
)
    requires
        call_ensures(KeyValue::new, (key, kind, ttl, size), r),
    ensures
        r.key@ == key@,
        r.redis_type@ == kind@,
        r.ttl == ttl,
        r.size_bytes == size,
        r.elements is None,
        r.body@.len() == 0,
        r.hex is None,
        r.encoding is None,
        kind@ == "none"@ ==> r.error is Some && r.error->0@
            == "key does not exist (it may have expired)"@,
        kind@ == "string"@ || kind@ == "set"@ || kind@ == "list"@ || kind@ == "hash"@ || kind@
            == "zset"@ ==> r.error is None,
        kind@ != "string"@ && kind@ != "set"@ && kind@ != "list"@ && kind@ != "hash"@ && kind@
            != "zset"@ && kind@ != "none"@ ==> r.error is Some && r.error->0@
            == "unsupported type: "@ + kind@,
{
    reveal_strlit("none");
    reveal_strlit("string");
    reveal_strlit("set");
    reveal_strlit("list");
    reveal_strlit("hash");
    reveal_strlit("zset");
    assert("none"@.len() == 4 && "none"@[0] == 'n' && "string"@.len() == 6 && "set"@.len() == 3);
    assert("list"@.len() == 4 && "hash"@.len() == 4 && "zset"@.len() == 4);
    assert("list"@[0] == 'l' && "hash"@[0] == 'h' && "zset"@[0] == 'z');
}

/// The note about what a listing leaves out: how many elements there are more.
pub open spec fn more_note(total: nat, shown: nat) -> Seq<char> {
    if total > shown {
        "\n… "@ + dec((total - shown) as nat) + " more (truncated)"@
    } else {
        ""@
    }
}

/// Sets and lists are shown element by element, one to a line and in order, as
/// far as the cap reaches, with a note about how many more there are.
pub proof fn elements_are_listed_in_order(items: Seq<Vec<u8>>, total: nat, limit: nat)
    ensures
        items.len() <= limit ==> crate::inspect::members_text(items, total, limit)
            == crate::text::joined(
            Seq::new(items.len(), |i: int| crate::inspect::escaped(items[i]@)),
            "\n"@,
        ) + more_note(total, items.len()),
        items.len() > limit ==> crate::inspect::members_text(items, total, limit)
            == crate::text::joined(
            Seq::new(limit, |i: int| crate::inspect::escaped(items[i]@)),
            "\n"@,
        ) + more_note(total, limit),
{
    reveal_strlit("");
    assert(""@ =~= Seq::<char>::empty());
    let shown = crate::inspect::at_most(crate::inspect::shown_keys(items), limit);
    if items.len() <= limit {
        assert(shown =~= Seq::new(items.len(), |i: int| crate::inspect::escaped(items[i]@)));
    } else {
        assert(shown =~= Seq::new(limit, |i: int| crate::inspect::escaped(items[i]@)));
    }
}

/// Sorted sets are shown with score and member, one pair to a line and in
/// order.
pub proof fn scores_are_listed_in_order(items: Seq<crate::inspect::Scored>, total: nat)
    ensures
        crate::inspect::scores_text(items, total) == crate::text::joined(
            Seq::new(items.len(), |i: int| items[i].score@ + "  "@ + lossy(items[i].member@)),
            "\n"@,
        ) + more_note(total, items.len()),
{
    reveal_strlit("");
    assert(""@ =~= Seq::<char>::empty());
}

/// Hashes are shown with field and value, one pair to a line and in order, as
/// far as the cap reaches, with a note about how many more there are.
pub proof fn fields_are_listed_in_order(flat: Seq<Vec<u8>>, limit: nat)
    requires
        flat.len() % 2 == 0,
    ensures
        flat.len() / 2 <= limit ==> crate::inspect::fields_text(flat, limit) == crate::text::joined(
            Seq::new(
                flat.len() / 2,
                |i: int| lossy(flat[2 * i]@) + " = "@ + lossy(flat[2 * i + 1]@),
            ),
            "\n"@,
        ),
        flat.len() / 2 > limit ==> crate::inspect::fields_text(flat, limit) == crate::text::joined(
            Seq::new(limit, |i: int| lossy(flat[2 * i]@) + " = "@ + lossy(flat[2 * i + 1]@)),
            "\n"@,
        ) + "\n… "@ + dec((flat.len() / 2 - limit) as nat) + " more fields (truncated)"@,
{
    let n = flat.len() / 2;
    assert((flat.len() + 1) / 2 == n);
    let lines = Seq::new((flat.len() + 1) / 2, |i: int| crate::inspect::field_line(flat, i));
    let shown = crate::inspect::at_most(lines, limit);
    if n <= limit {
        assert(shown =~= Seq::new(
            n,
            |i: int| lossy(flat[2 * i]@) + " = "@ + lossy(flat[2 * i + 1]@),
        ));
    } else {
        assert(shown =~= Seq::new(
            limit,
            |i: int| lossy(flat[2 * i]@) + " = "@ + lossy(flat[2 * i + 1]@),
        ));
    }
}

/// Taking in a listing sets the number of elements and the body, and leaves
/// everything else.
pub proof fn listings_set_count_and_body(a: KeyValue, b: KeyValue, n: nat, body: Seq<char>)
    requires
        crate::inspect::lists(a, b, n, body),
    ensures
        b.elements is Some && b.elements->0 == n,
        b.body@ == body,
        b.key == a.key,
        b.redis_type == a.redis_type,
        b.ttl == a.ttl,
        b.size_bytes == a.size_bytes,
        b.error == a.error,
        b.hex == a.hex,
{
}

/// A shown key is the key's text with every marker byte written out, and going
/// back gives the key.
pub proof fn shown_keys_go_back(bytes: Vec<u8>, shown: String, s: &str, back: Vec<u8>)
    requires
        call_ensures(escape_key, (&bytes,), shown),
        s@ == shown@,
        call_ensures(unescape_key, (s,), back),
        vstd::utf8::valid_utf8(bytes@),
        !contains(vstd::utf8::decode_utf8(bytes@), "\\x01"@),
    ensures
        back@ == bytes@,
        !vstd::utf8::decode_utf8(bytes@).contains('\u{1}') ==> shown@ == vstd::utf8::decode_utf8(
            bytes@,
        ),
        !shown@.contains('\u{1}'),
{
    let t = vstd::utf8::decode_utf8(bytes@);
    crate::inspect::escaping_is_undone(bytes@);
    if !t.contains('\u{1}') {
        absent_stays(t);
    }
    crate::grouping::no_marker_left(t);
    assert(shown@ == crate::grouping::marked(t));
    if shown@.contains('\u{1}') {
        let i = choose|i: int| 0 <= i < shown@.len() && shown@[i] == '\u{1}';
        assert(crate::grouping::marked(t)[i] != '\u{1}');
    }
}

proof fn absent_stays(t: Seq<char>)
    requires
        !t.contains('\u{1}'),
    ensures
        crate::text::replace_char(t, '\u{1}', "\\x01"@) == t,
    decreases t.len(),
{
    if t.len() > 0 {
        let f = t.drop_last();
        assert(!f.contains('\u{1}')) by {
            if f.contains('\u{1}') {
                let i = choose|i: int| 0 <= i < f.len() && f[i] == '\u{1}';
                assert(t[i] == '\u{1}');
            }
        }
        absent_stays(f);
        assert(t[t.len() - 1] == t.last());
        assert(f.push(t.last()) =~= t);
    }
}

/// The pattern of an ordinary type is its namespace, a colon, the type and a
/// star; a bucket's name gives way to the star.
pub proof fn patterns_name_namespace_and_type(
    ns: &str,
    ty: &str,
    stem: Seq<char>,
    r: String,
)
    requires
        call_ensures(crate::inspect::match_pattern_for, (ns, ty), r),
        ty@ == stem || ty@ == stem + "(hash)"@ || ty@ == "(no-type)"@,
        !contains(ty@, "\\x01"@),
    ensures
        ty@ == "(no-type)"@ ==> r@ == ns@ + ":*"@,
        ty@ == stem && ty@ != "(no-type)"@ && !ends_with(ty@, "(hash)"@) ==> r@ == ns@ + ":"@ + stem
            + "*"@,
        ty@ == stem + "(hash)"@ ==> r@ == ns@ + ":"@ + stem + "*"@,
{
    reveal_strlit("(no-type)");
    reveal_strlit("(hash)");
    crate::inspect::no_marker_to_restore(ty@);
    if ty@ == stem + "(hash)"@ {
        let n = ty@.len();
        assert(ty@.subrange(n - 6, n as int) =~= "(hash)"@);
        assert(ty@.take(n - 6) =~= stem);
        if ty@ == "(no-type)"@ {
            assert(ty@[8] == ')' && ty@[7] == 'e' && "(no-type)"@[7] == 'e');
            assert(ty@[7] == "(hash)"@[4]);
            assert(false);
        }
    }
}

// ---------------------------------------------------------------------------
// The biggest keys, batches, the viewer's start
// ---------------------------------------------------------------------------

/// The biggest keys come largest first, equal ones by name.
pub proof fn biggest_keys_descend(
    stats: Stats,
    r: Vec<crate::leaderboard::BigKey>,
    i: int,
    j: int,
)
    requires
        stats.wf(),
        call_ensures(Stats::biggest, (&stats,), r),
        0 <= i < j < r@.len(),
    ensures
        r@[i].bytes > r@[j].bytes || (r@[i].bytes == r@[j].bytes && !lex_lt(
            r@[j].key@,
            r@[i].key@,
        )),
        r@.to_multiset() == stats.retained(),
        r@.len() <= stats.cap(),
{
    assert(!crate::leaderboard::outranks(r@[j], r@[i]));
}

/// Batches have the size asked for, at least one key.
pub proof fn batches_have_the_size_asked_for(
    pending: Seq<Vec<u8>>,
    size: usize,
    keys: Seq<Vec<u8>>,
    i: int,
)
    requires
        pending.len() < size || (size == 0 && pending.len() == 0),
        0 <= i < crate::cleanup::cut(pending, size, keys).0.len(),
    ensures
        size > 0 ==> crate::cleanup::cut(pending, size, keys).0[i].len() == size,
        size == 0 ==> crate::cleanup::cut(pending, size, keys).0[i].len() == 1,
        size > 0 ==> crate::cleanup::cut(pending, size, keys).1.len() < size,
{
    crate::cleanup::batches_hold_every_key(pending, size, keys);
}

/// Two tallies add up counter by counter.
pub proof fn totals_add_up(a: Totals, b: Totals, c: Totals)
    requires
        crate::cleanup::tally(c) == crate::cleanup::plus(
            crate::cleanup::tally(a),
            crate::cleanup::tally(b),
        ),
    ensures
        c.processed_keys == a.processed_keys + b.processed_keys,
        c.removed_members == a.removed_members + b.removed_members,
        c.deleted_keys == a.deleted_keys + b.deleted_keys,
{
}

/// The viewer opens on Browse at the first namespace; with the picker it waits
/// for a depth, otherwise it runs with the depth of the scan.
pub proof fn the_viewer_opens_on_browse(
    shared: crate::tui::Shared,
    a: crate::tui::App,
    b: crate::tui::App,
)
    requires
        call_ensures(crate::tui::App::new, (&shared,), a),
        call_ensures(crate::tui::App::with_picker, (), b),
    ensures
        a.screen == crate::tui::Screen::Running,
        a.advanced == shared.advanced,
        !a.waiting,
        b.screen == (crate::tui::Screen::Picking { selected: 0 }),
        b.waiting,
        a.tab == crate::tui::Tab::Browse && b.tab == crate::tui::Tab::Browse,
        a.pane == crate::tui::Pane::Namespaces,
        a.sort == Sort::Count,
        a.ns == Some(0usize),
        a.filter@.len() == 0 && !a.editing_filter,
        !a.should_quit && !b.should_quit,
        !a.can_fetch && !a.loading,
        a.key_list is None && a.key_value is None,
{
    assert(a@.filter == a.filter@);
}

/// The share of memory in use is known exactly if both figures are and there is
/// a ceiling.
pub proof fn fullness_needs_a_ceiling(
    info: ServerInfo,
    r: Option<crate::binary64::Binary64>,
)
    requires
        call_ensures(ServerInfo::memory_fullness, (&info,), r),
    ensures
        r is Some <==> info.used_memory is Some && info.maxmemory is Some && info.maxmemory->0 > 0,
        r is Some ==> r->0@ == crate::binary64::one() || r->0@ == crate::binary64::share(
            info.used_memory->0 as nat,
            info.maxmemory->0 as nat,
        ),
{
}

// ---------------------------------------------------------------------------
// Caps and defaults
// ---------------------------------------------------------------------------

/// A listing is complete up to a thousand keys, and capped exactly beyond them.
pub proof fn listings_hold_a_thousand_keys(
    states: Seq<crate::inspect::Listing>,
    pages: Seq<Seq<Seq<char>>>,
)
    requires
        crate::inspect::listing_run(states, pages),
    ensures
        states.last().capped <==> pages.flatten().len() > 1000,
        pages.flatten().len() <= 1000 ==> crate::text::texts(states.last().keys@)
            == pages.flatten(),
        pages.flatten().len() > 1000 ==> crate::text::texts(states.last().keys@)
            == pages.flatten().take(1000),
{
    crate::inspect::capped_means_more_exist(states, pages);
    assert(crate::text::texts(states.last().keys@).len() == states.last().keys@.len());
}

/// `get` shows a value whole, as long as it fits in memory twice.
pub proof fn get_does_not_truncate(bytes: Vec<u8>, r: Decoded)
    requires
        call_ensures(decode, (&bytes, crate::get::GET_CAP), r),
        r.stream_offset is None,
        lossy(bytes@).len() <= usize::MAX / 2,
        bytes@.len() <= usize::MAX / 2,
    ensures
        r.text@ == lossy(bytes@),
        r.hex@ == crate::value::hex_lines(bytes@, 0),
{
    shown(r, bytes@, crate::get::GET_CAP);
}

/// The viewer shows the first twenty thousand characters of a value.
pub proof fn the_viewer_shows_twenty_thousand_characters(bytes: Vec<u8>, r: Decoded)
    requires
        call_ensures(decode, (&bytes, crate::inspect::VALUE_DISPLAY_CAP), r),
        r.stream_offset is None,
    ensures
        lossy(bytes@).len() <= 20_000 ==> r.text@ == lossy(bytes@),
        lossy(bytes@).len() > 20_000 ==> r.text@.take(20_000) == lossy(bytes@).take(20_000),
{
    shown(r, bytes@, crate::inspect::VALUE_DISPLAY_CAP);
}

/// A bare command scans everything with the documented page size and namespace
/// length, and leaves the depth to the user.
pub proof fn bare_scans_leave_the_depth_open(a: ScanArgs, p: Option<bool>)
    requires
        call_ensures(ScanArgs::default_for_bare, (), a),
        call_ensures(ScanArgs::preset, (&a,), p),
    ensures
        p is None,
        a.pattern is None,
        a.limit == 0,
        a.count == 1000,
        a.namespace_len == 10,
{
}

/// Advanced depth keeps a hundred of the biggest keys unless told otherwise.
pub proof fn advanced_scans_keep_a_hundred_keys(a: ScanArgs, o: ScanOptions)
    requires
        call_ensures(ScanArgs::scan_options, (&a, true), o),
        a.biggest == 0,
    ensures
        o.biggest == 100,
{
}

/// A centered rectangle lies inside its area, as large as asked for if there is
/// room, with as much space on one side as on the other.
pub proof fn centered_means_in_the_middle(
    width: u16,
    height: u16,
    area: crate::screens::Area,
    r: crate::screens::Area,
)
    requires
        call_ensures(crate::screens::centered_rect, (width, height, area), r),
    ensures
        width <= area.width ==> r.width == width,
        width > area.width ==> r.width == area.width,
        height <= area.height ==> r.height == height,
        height > area.height ==> r.height == area.height,
        ({
            let left = r.x - area.x;
            let right = area.x + area.width - (r.x + r.width);
            let above = r.y - area.y;
            let below = area.y + area.height - (r.y + r.height);
            &&& 0 <= left <= right <= left + 1
            &&& 0 <= above <= below <= above + 1
        }),
{
}

/// A reply closes its request: nothing is in flight, a new generation begins,
/// and it is that of the slot that was filled; what the slots hold stays.
pub proof fn replies_begin_a_generation(
    i: crate::inspect::Inbox,
    slot: crate::inspect::Slot,
)
    requires
        i.generation < u64::MAX,
    ensures
        ({
            let c = crate::inspect::closed(i, slot);
            &&& !c.loading
            &&& c.generation == i.generation + 1
            &&& c.key_list == i.key_list && c.key_value == i.key_value
            &&& slot == crate::inspect::Slot::List ==> c.list_generation == i.generation + 1
                && c.value_generation == i.value_generation
            &&& slot == crate::inspect::Slot::Value ==> c.value_generation == i.generation + 1
                && c.list_generation == i.list_generation
        }),
{
}

/// What a connection failed of is in its message.
pub proof fn messages_carry_their_cause(url: &str, e: &str, a: String, b: String, c: String)
    requires
        call_ensures(crate::connection::refused, (e,), a),
        call_ensures(crate::connection::bad_url, (url, e), b),
        call_ensures(crate::cleanup::batch_error, (e,), c),
    ensures
        ends_with(a@, e@),
        ends_with(b@, ": "@ + e@),
        starts_with(b@, "invalid redis url "@ + url@),
        ends_with(c@, e@),
        starts_with(a@, "could not connect to redis: "@),
        starts_with(c@, "batch error: "@),
{
    let x = "could not connect to redis: "@;
    assert(a@.subrange(a@.len() - e@.len(), a@.len() as int) =~= e@);
    assert(a@.subrange(0, x.len() as int) =~= x);
    let y = "invalid redis url "@ + url@;
    let z = ": "@ + e@;
    assert(b@ =~= y + z);
    assert(b@.subrange(b@.len() - z.len(), b@.len() as int) =~= z);
    assert(b@.subrange(0, y.len() as int) =~= y);
    let w = "batch error: "@;
    assert(c@.subrange(c@.len() - e@.len(), c@.len() as int) =~= e@);
    assert(c@.subrange(0, w.len() as int) =~= w);
}

/// The announcement of a cleanup names its scope, and a dry run as one.
pub proof fn announcements_name_the_scope(args: CleanupArgs, p: Plan)
    requires
        call_ensures(plan, (&args,), p),
        !args.json,
    ensures
        p.notice is Some,
        args.namespace is Some && args.apply ==> p.notice->0@ == "Redis tag cleanup — "@ + (
        "namespace '"@ + args.namespace->0@ + "'"@) + "\n"@,
        args.namespace is None && args.apply ==> p.notice->0@ == "Redis tag cleanup — "@
            + "all namespaces"@ + "\n"@,
        args.namespace is Some && !args.apply ==> p.notice->0@ == "Redis tag cleanup — "@ + (
        "namespace '"@ + args.namespace->0@ + "'"@)
            + " (DRY RUN)\nNo keys will be modified. Re-run with --apply to clean.\n"@,
        args.namespace is None && !args.apply ==> p.notice->0@ == "Redis tag cleanup — "@
            + "all namespaces"@
            + " (DRY RUN)\nNo keys will be modified. Re-run with --apply to clean.\n"@,
{
}

/// A cleanup asks the server page by page, from the cursor that it was given,
/// with its own pattern and page size.
pub proof fn cleanup_scans_with_its_pattern(
    cursor: u64,
    pattern: &str,
    count: usize,
    r: Vec<String>,
)
    requires
        call_ensures(crate::cleanup::scan_command, (cursor, pattern, count), r),
    ensures
        r@.len() == 6,
        r@[0]@ == "SCAN"@,
        r@[1]@ == dec(cursor as nat),
        r@[2]@ == "MATCH"@,
        r@[3]@ == pattern@,
        r@[4]@ == "COUNT"@,
        r@[5]@ == dec(count as nat),
{
    let t = crate::text::texts(r@);
    assert(t.len() == 6 && t.len() == r@.len());
    assert(t[0] == r@[0]@ && t[1] == r@[1]@ && t[2] == r@[2]@);
    assert(t[3] == r@[3]@ && t[4] == r@[4]@ && t[5] == r@[5]@);
}

/// A key listing asks for the keys of its own namespace and type, from the
/// cursor at which it stands.
pub proof fn listings_ask_for_their_type(
    l: crate::inspect::Listing,
    r: Vec<String>,
    ns: &str,
    ty: &str,
    pattern: String,
)
    requires
        call_ensures(crate::inspect::Listing::command, (&l,), r),
        ns@ == l.namespace@,
        ty@ == l.key_type@,
        call_ensures(crate::inspect::match_pattern_for, (ns, ty), pattern),
    ensures
        r@.len() == 6,
        r@[0]@ == "SCAN"@,
        r@[1]@ == dec(l.cursor as nat),
        r@[2]@ == "MATCH"@,
        r@[3]@ == pattern@,
{
    let t = crate::text::texts(r@);
    assert(t.len() == 6 && t.len() == r@.len());
    assert(t[0] == r@[0]@ && t[1] == r@[1]@ && t[2] == r@[2]@ && t[3] == r@[3]@);
}

/// New statistics hold nothing, and their leaderboard has the room asked for.
pub proof fn new_statistics_hold_nothing(cap: usize, s: Stats, ns: &str, n: u64, b: u64)
    requires
        call_ensures(Stats::with_biggest_cap, (cap,), s),
        call_ensures(Stats::namespace_count, (&s, ns), n),
        call_ensures(Stats::namespace_bytes, (&s, ns), b),
    ensures
        crate::stats::unused(s),
        s.cap() == cap,
        s.total_keys == 0,
        n == 0,
        b == 0,
        s.retained().len() == 0,
{
}

/// A namespace has as many keys as its types have together, and as many bytes.
pub proof fn namespaces_add_up_their_types(s: Stats, ns: &str, n: u64, b: u64)
    requires
        call_ensures(Stats::namespace_count, (&s, ns), n),
        call_ensures(Stats::namespace_bytes, (&s, ns), b),
    ensures
        n == s.keys_under(ns@),
        b == s.bytes_under(ns@),
        !s.namespaces@.contains_key(ns@) ==> n == 0 && b == 0,
{
}

/// The mean size is that of the measured keys, rounded down.
pub proof fn averages_are_over_measured_keys(t: crate::stats::TypeStat, r: u64)
    requires
        call_ensures(crate::stats::TypeStat::avg_bytes, (&t,), r),
    ensures
        t.measured > 0 ==> r * t.measured <= t.total_bytes < (r + 1) * t.measured,
        t.measured == 0 ==> r == 0,
{
    if t.measured > 0 {
        let a = t.total_bytes as int;
        let d = t.measured as int;
        assert((a / d) * d <= a && a < (a / d + 1) * d) by (nonlinear_arith)
            requires
                d > 0,
                a >= 0,
        ;
    }
}

/// Any key is shown as its text with every marker byte written out.
pub proof fn markers_are_written_out(bytes: Vec<u8>, shown: String)
    requires
        call_ensures(escape_key, (&bytes,), shown),
    ensures
        shown@ == crate::text::replace_char(lossy(bytes@), '\u{1}', "\\x01"@),
{
}

} // verus!
