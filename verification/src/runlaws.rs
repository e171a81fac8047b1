//! What the operations that change their receiver do, stated over the state
//! before, the state after and the result.

use crate::cleanup::{laid_out, batches_of, Producer, Totals};
use crate::inspect::{
    escaped, report_error, shown_keys, Inbox, KeyList, KeyValue, Listing, Request, Scored,
};
use crate::leaderboard::BigKey;
use crate::report::{
    md_ns_row, md_section, render, render_markdown, size_text, term_section, ReportOptions,
};
use crate::scanner::{batch_records, Fault, Scan, Step};
use crate::screens::{
    biggest, browse, persistent, shows_biggest, shows_namespaces, shows_persistent, shows_types,
    BrowsePanels, PersistentPanels, TablePanel,
};
use crate::stats::{records, records_in_turn, KeyObservation, KeyRecord, Stats};
use crate::text::{contains, dec, joined, lossy, texts};
use crate::tui::{act_of, handle_key, key_step, polled, Action, App, Key, Shared};
use crate::value::stream_at;
use vstd::prelude::*;

verus! {

// ---------------------------------------------------------------------------
// Scanning
// ---------------------------------------------------------------------------

/// Recording a key records it: under its own namespace and type, with what was
/// observed of it.
pub proof fn recording_is_recording(
    s: &mut Stats,
    key: &str,
    ns: &str,
    ty: &str,
    obs: KeyObservation,
)
    requires
        call_ensures(Stats::record, (s, key, ns, ty, &obs), ()),
    ensures
        records(
            *old(s),
            (KeyRecord { key: key@, namespace: ns@, key_type: ty@, obs }),
            *final(s),
        ),
        final(s).total_keys == old(s).total_keys + 1,
        final(s).keys_under(ns@) == old(s).keys_under(ns@) + 1,
{
}

/// A batch is recorded key by key and in order. The scan ends when the server
/// hands back the cursor zero or the limit is reached, and not before, however
/// many keys the batch held.
pub proof fn batches_are_recorded_in_order(
    s: &mut Scan,
    next: u64,
    keys: Vec<String>,
    obs: Vec<KeyObservation>,
    r: Result<Step, Fault>,
)
    requires
        call_ensures(Scan::take_in, (s, next, &keys, &obs), r),
    ensures
        r is Ok ==> {
            &&& records_in_turn(
                old(s).stats,
                batch_records(
                    texts(keys@),
                    obs@,
                    old(s).opts.namespace_len as nat,
                    keys@.len(),
                ),
                final(s).stats,
            )
            &&& final(s).cursor == next
            &&& final(s).stats.total_keys == old(s).stats.total_keys + keys@.len()
            &&& r->Ok_0 == Step::Done <==> next == 0 || (old(s).opts.limit > 0
                && final(s).stats.total_keys >= old(s).opts.limit)
        },
        r is Err ==> final(s).cursor == old(s).cursor,
        final(s).opts == old(s).opts,
{
}

/// A batch whose keys can all be cut and whose counts fit is recorded whole; the
/// first key that cannot be stops the scan.
pub proof fn batches_that_fit_are_recorded(
    s: &mut Scan,
    next: u64,
    keys: Vec<String>,
    obs: Vec<KeyObservation>,
    r: Result<Step, Fault>,
)
    requires
        call_ensures(Scan::take_in, (s, next, &keys, &obs), r),
    ensures
        r is Ok <==> {
            &&& forall|i: int|
                0 <= i < keys@.len() ==> crate::grouping::cuts_cleanly(
                    #[trigger] texts(keys@)[i],
                    old(s).opts.namespace_len as nat,
                )
            &&& old(s).stats.total_keys + keys@.len() <= u64::MAX
            &&& old(s).stats.byte_sum() + crate::scanner::batch_bytes(obs@, keys@.len())
                <= u64::MAX
        },
{
    assert(texts(keys@).len() == keys@.len());
}

/// A listing takes keys in as they come, and ends when the server hands back
/// the cursor zero or a key beyond the cap came, and not before.
pub proof fn listings_end_with_the_keyspace(
    l: &mut Listing,
    next: u64,
    batch: Vec<Vec<u8>>,
    r: Step,
)
    requires
        call_ensures(Listing::take_in, (l, next, &batch), r),
    ensures
        final(l).cursor == next,
        final(l).namespace == old(l).namespace,
        final(l).key_type == old(l).key_type,
        final(l).capped <==> old(l).keys@.len() + batch@.len() > 1000,
        !final(l).capped ==> texts(final(l).keys@) == texts(old(l).keys@) + Seq::new(
            batch@.len(),
            |i: int| escaped(batch@[i]@),
        ),
        final(l).capped ==> texts(final(l).keys@) == (texts(old(l).keys@) + Seq::new(
            batch@.len(),
            |i: int| escaped(batch@[i]@),
        )).take(1000),
        r == Step::Done <==> next == 0 || final(l).capped,
{
    let more = Seq::new(batch@.len(), |i: int| escaped(batch@[i]@));
    assert(shown_keys(batch@) =~= more);
    assert(texts(old(l).keys@).len() == old(l).keys@.len());
}

/// A finished listing has its keys in name order, and says whether it was
/// capped.
pub proof fn finished_listings_are_sorted(l: Listing, r: KeyList, i: int, j: int)
    requires
        call_ensures(Listing::finish, (l,), r),
        0 <= i < j < r.keys@.len(),
    ensures
        !crate::text::lex_lt(r.keys@[j]@, r.keys@[i]@),
        r.capped == l.capped,
        r.error is None,
        texts(r.keys@).to_multiset() == texts(l.keys@).to_multiset(),
        r.namespace == l.namespace,
        r.key_type == l.key_type,
{
}

// ---------------------------------------------------------------------------
// Cleanup
// ---------------------------------------------------------------------------

/// Every tag key of a page goes into a batch or stays for the next one, in
/// order; the last page is the one with the cursor zero, whatever it held.
pub proof fn every_tag_key_is_handed_over(
    p: &mut Producer,
    next: u64,
    keys: Vec<Vec<u8>>,
    r: (Vec<Vec<Vec<u8>>>, bool),
)
    requires
        old(p).wf(),
        call_ensures(Producer::take_in, (p, next, keys), r),
    ensures
        r.1 <==> next == 0,
        final(p).cursor == next,
        laid_out(batches_of(r.0@)) + final(p).batcher.pending@ == old(p).batcher.pending@ + keys@,
        forall|i: int|
            0 <= i < r.0@.len() ==> (#[trigger] r.0@[i])@.len() == (if old(p).batcher.size == 0 {
                1
            } else {
                old(p).batcher.size as int
            }),
{
    crate::cleanup::batches_hold_every_key(
        old(p).batcher.pending@,
        old(p).batcher.size,
        keys@,
    );
    let b = batches_of(r.0@);
    assert forall|i: int| 0 <= i < r.0@.len() implies (#[trigger] r.0@[i])@.len() == (if old(
        p,
    ).batcher.size == 0 {
        1
    } else {
        old(p).batcher.size as int
    }) by {
        assert(b[i] == r.0@[i]@);
    }
}

/// What is left over at the end is the last batch.
pub proof fn the_rest_is_handed_over(p: Producer, r: Option<Vec<Vec<u8>>>)
    requires
        call_ensures(Producer::finish, (p,), r),
    ensures
        r is None <==> p.batcher.pending@.len() == 0,
        r is Some ==> r->0@ == p.batcher.pending@,
{
}

/// Totals are added up counter by counter.
pub proof fn totals_are_added(t: &mut Totals, more: Totals)
    requires
        call_ensures(Totals::add, (t, more), ()),
    ensures
        final(t).processed_keys == old(t).processed_keys + more.processed_keys,
        final(t).removed_members == old(t).removed_members + more.removed_members,
        final(t).deleted_keys == old(t).deleted_keys + more.deleted_keys,
{
}

// ---------------------------------------------------------------------------
// Values
// ---------------------------------------------------------------------------

/// A list has as many elements as the server counts, and shows those that were
/// read, with a note about the others.
pub proof fn lists_show_their_elements(
    v: &mut KeyValue,
    items: Vec<Vec<u8>>,
    total: u64,
    cap: usize,
)
    requires
        call_ensures(KeyValue::take_items, (v, &items, total, cap), ()),
        items@.len() <= 500,
    ensures
        final(v).elements == Some(total),
        final(v).error == old(v).error,
        final(v).body@ == joined(
            Seq::new(items@.len(), |i: int| escaped(items@[i]@)),
            "\n"@,
        ) + crate::laws::more_note(total as nat, items@.len()),
{
    crate::laws::elements_are_listed_in_order(
        items@,
        total as nat,
        crate::inspect::element_cap(cap),
    );
}

/// A set has as many elements as it has members, and shows them.
pub proof fn sets_show_their_members(v: &mut KeyValue, items: Vec<Vec<u8>>, cap: usize)
    requires
        call_ensures(KeyValue::take_members, (v, &items, cap), ()),
        items@.len() <= u64::MAX,
    ensures
        final(v).elements is Some && final(v).elements->0 == items@.len(),
        items@.len() <= 500 ==> final(v).body@ == joined(
            Seq::new(items@.len(), |i: int| escaped(items@[i]@)),
            "\n"@,
        ),
{
    reveal_strlit("");
    crate::laws::elements_are_listed_in_order(
        items@,
        items@.len(),
        crate::inspect::element_cap(cap),
    );
    let j = joined(Seq::new(items@.len(), |i: int| escaped(items@[i]@)), "\n"@);
    assert(j + ""@ =~= j);
}

/// A hash has half as many fields as there are texts, and shows field and value
/// together.
pub proof fn hashes_show_their_fields(v: &mut KeyValue, flat: Vec<Vec<u8>>, cap: usize)
    requires
        call_ensures(KeyValue::take_fields, (v, &flat, cap), ()),
        flat@.len() % 2 == 0,
    ensures
        final(v).elements is Some && 2 * final(v).elements->0 == flat@.len(),
        flat@.len() <= 1000 ==> final(v).body@ == joined(
            Seq::new(
                flat@.len() / 2,
                |i: int| lossy(flat@[2 * i]@) + " = "@ + lossy(flat@[2 * i + 1]@),
            ),
            "\n"@,
        ),
{
    crate::laws::fields_are_listed_in_order(flat@, crate::inspect::element_cap(cap));
}

/// A sorted set has as many members as the server counts, and shows those that
/// were read with their scores.
pub proof fn sorted_sets_show_their_scores(v: &mut KeyValue, items: Vec<Scored>, total: u64)
    requires
        call_ensures(KeyValue::take_scores, (v, &items, total), ()),
    ensures
        final(v).elements == Some(total),
        final(v).body@ == joined(
            Seq::new(items@.len(), |i: int| items@[i].score@ + "  "@ + lossy(items@[i].member@)),
            "\n"@,
        ) + crate::laws::more_note(total as nat, items@.len()),
{
    crate::laws::scores_are_listed_in_order(items@, total as nat);
}

/// A string shows the first stream in it, wherever that begins, or else itself.
pub proof fn strings_show_their_first_stream(v: &mut KeyValue, bytes: Vec<u8>, cap: usize, i: int)
    requires
        call_ensures(KeyValue::take_bytes, (v, &bytes, cap), ()),
        0 <= i < bytes@.len(),
        stream_at(bytes@, i) is Some,
        forall|j: int| 0 <= j < i ==> #[trigger] stream_at(bytes@, j) is None,
    ensures
        final(v).stream_offset is Some && final(v).stream_offset->0 == i,
        final(v).encoding == Some(crate::value::magic_at(bytes@, i)),
        lossy(stream_at(bytes@, i)->0).len() <= cap ==> final(v).body@ == lossy(
            stream_at(bytes@, i)->0,
        ),
        final(v).hex is Some,
        crate::value::views(
            final(v).is_binary,
            final(v).body@,
            final(v).hex->0@,
            stream_at(bytes@, i)->0,
            cap,
        ),
{
    crate::value::first_stream_is_first(bytes@, 0);
}

/// A string without a stream shows itself.
pub proof fn plain_strings_show_themselves(v: &mut KeyValue, bytes: Vec<u8>, cap: usize)
    requires
        call_ensures(KeyValue::take_bytes, (v, &bytes, cap), ()),
        forall|j: int| 0 <= j < bytes@.len() ==> #[trigger] stream_at(bytes@, j) is None,
    ensures
        final(v).stream_offset is None,
        final(v).encoding == Some(crate::value::Encoding::Plain),
        final(v).hex is Some,
        lossy(bytes@).len() <= cap ==> final(v).body@ == lossy(bytes@),
        crate::value::views(
            final(v).is_binary,
            final(v).body@,
            final(v).hex->0@,
            bytes@,
            cap,
        ),
{
    crate::value::first_stream_is_first(bytes@, 0);
}

/// What could not be read carries the error.
pub proof fn failed_values_carry_their_error(v: &mut KeyValue, e: String)
    requires
        call_ensures(KeyValue::take_error, (v, e), ()),
    ensures
        final(v).error is Some && final(v).error->0@ == e@,
        final(v).key == old(v).key,
{
}

// ---------------------------------------------------------------------------
// Requests and replies
// ---------------------------------------------------------------------------

/// A failed request leaves its error in the slot that it was for, and nothing
/// else has changed.
pub proof fn errors_reach_their_slot(i: &mut Inbox, req: Request, err: String)
    requires
        call_ensures(report_error, (i, &req, err), ()),
    ensures
        req is ListKeys ==> {
            &&& final(i).key_list is Some
            &&& final(i).key_list->0.error is Some && final(i).key_list->0.error->0@ == err@
            &&& final(i).key_list->0.keys@.len() == 0
            &&& final(i).key_list->0.namespace@ == req->namespace@
            &&& final(i).key_list->0.key_type@ == req->key_type@
            &&& final(i).key_value == old(i).key_value
        },
        req is GetValue ==> {
            &&& final(i).key_value is Some
            &&& final(i).key_value->0.error is Some && final(i).key_value->0.error->0@ == err@
            &&& final(i).key_value->0.key@ == req->key@
            &&& final(i).key_list == old(i).key_list
        },
        final(i).generation == old(i).generation,
        final(i).loading == old(i).loading,
{
}

/// A listing that came back fills its slot and begins a generation.
pub proof fn lists_fill_their_slot(i: &mut Inbox, l: KeyList)
    requires
        call_ensures(Inbox::put_list, (i, l), ()),
        old(i).generation < u64::MAX,
    ensures
        final(i).key_list == Some(l),
        final(i).key_value == old(i).key_value,
        !final(i).loading,
        final(i).generation == old(i).generation + 1,
        final(i).list_generation == final(i).generation,
        final(i).value_generation == old(i).value_generation,
{
}

/// A value that came back fills its slot and begins a generation.
pub proof fn values_fill_their_slot(i: &mut Inbox, v: KeyValue)
    requires
        call_ensures(Inbox::put_value, (i, v), ()),
        old(i).generation < u64::MAX,
    ensures
        final(i).key_value == Some(v),
        final(i).key_list == old(i).key_list,
        !final(i).loading,
        final(i).generation == old(i).generation + 1,
        final(i).value_generation == final(i).generation,
        final(i).list_generation == old(i).list_generation,
{
}

/// A scan that ends shows its result, or keeps the last snapshot and says why
/// it broke off.
pub proof fn ended_scans_show_their_result(s: &mut Shared, result: Result<Stats, String>)
    requires
        call_ensures(Shared::finish, (s, result), ()),
    ensures
        final(s).done,
        result is Ok ==> final(s).stats == result->Ok_0 && final(s).error == old(s).error,
        result is Err ==> final(s).stats == old(s).stats && final(s).error is Some
            && final(s).error->0@ == "scan failed: "@ + result->Err_0@,
        final(s).advanced == old(s).advanced,
{
}

// ---------------------------------------------------------------------------
// The viewer
// ---------------------------------------------------------------------------

/// A key press does what the key does on the screen that is open, and asks for
/// what has to be done about it.
pub proof fn key_presses_do_what_keys_do(
    app: &mut App,
    key: Key,
    ctrl: bool,
    stats: Stats,
    r: Action,
)
    requires
        call_ensures(handle_key, (app, key, ctrl, &stats), r),
    ensures
        final(app)@ == key_step(old(app)@, key, ctrl, stats).0,
        act_of(r) == key_step(old(app)@, key, ctrl, stats).1,
{
}

/// Looking at the inbox takes in what is fresh.
pub proof fn looking_takes_in_what_is_fresh(app: &mut App, inbox: Inbox)
    requires
        call_ensures(App::poll_inbox, (app, inbox), ()),
    ensures
        final(app)@ == polled(old(app)@, inbox),
{
}

/// The Browse tab shows namespaces and types, its cursor on an existing row.
pub proof fn browse_shows_namespaces_and_types(app: &mut App, stats: Stats, r: BrowsePanels)
    requires
        call_ensures(browse, (app, &stats), r),
    ensures
        shows_namespaces(r.namespaces, final(app)@, stats),
        shows_types(r.types, final(app)@, stats),
        final(app)@.filter == old(app)@.filter,
        final(app)@.sort == old(app)@.sort,
        final(app)@.tab == old(app)@.tab,
        r.namespaces.rows@.len() > 0 ==> final(app)@.ns is Some && final(app)@.ns->0
            < r.namespaces.rows@.len(),
        old(app)@.ns is Some && old(app)@.ns->0 < r.namespaces.rows@.len() ==> final(app)@.ns
            == old(app)@.ns,
{
}

/// The biggest-keys tab shows the ranking, its cursor on an existing row.
pub proof fn the_biggest_tab_shows_the_ranking(app: &mut App, stats: Stats, r: TablePanel)
    requires
        stats.wf(),
        call_ensures(biggest, (app, &stats), r),
    ensures
        shows_biggest(r, final(app)@, stats.ranking()),
        stats.ranking().to_multiset() == stats.retained(),
        r.rows@.len() > 0 ==> final(app)@.big is Some && final(app)@.big->0 < r.rows@.len(),
{
    stats.board.ranking_is_listing();
}

/// The persistent tab shows the persistent keys, its cursor on an existing row.
pub proof fn the_persistent_tab_shows_persistent_keys(
    app: &mut App,
    stats: Stats,
    r: PersistentPanels,
)
    requires
        call_ensures(persistent, (app, &stats), r),
    ensures
        shows_persistent(r, final(app)@, stats),
        r.table.rows@.len() > 0 ==> final(app)@.persist is Some && final(app)@.persist->0
            < r.table.rows@.len(),
{
}

// ---------------------------------------------------------------------------
// Reports
// ---------------------------------------------------------------------------

/// Both reports have a section for every namespace, and the Markdown report a
/// row for it, too.
pub proof fn reports_have_every_namespace(
    stats: Stats,
    opts: ReportOptions,
    md: String,
    term: String,
    at: int,
)
    requires
        stats.wf(),
        call_ensures(render_markdown, (&stats, &opts), md),
        call_ensures(render, (&stats, &opts), term),
        stats.namespaces.listing().len() <= usize::MAX,
        0 <= at < stats.namespaces.listing().len(),
    ensures
        contains(md@, md_ns_row(stats.namespaces.listing()[at], stats.total_keys, opts)),
        contains(md@, md_section(stats.namespaces.listing()[at], opts)),
        contains(term@, term_section(stats.namespaces.listing()[at], opts)),
        contains(term@, "\nTotal keys: "@ + dec(stats.total_keys as nat) + "\n"@),
{
    crate::report::reports_show_every_namespace(stats, opts, stats.ranking(), at);
    crate::report::terminal_report_states_all_keys(stats, opts, stats.ranking());
}

/// Both reports list the biggest keys in order, if they are asked for.
pub proof fn reports_have_every_big_key(
    stats: Stats,
    opts: ReportOptions,
    big: Vec<BigKey>,
    md: String,
    k: int,
)
    requires
        stats.wf(),
        call_ensures(render_markdown, (&stats, &opts), md),
        call_ensures(Stats::biggest, (&stats,), big),
        opts.biggest > 0,
        0 <= k < big@.len(),
    ensures
        contains(
            md@,
            "| "@ + dec((k + 1) as nat) + " | "@ + size_text(big@[k].bytes) + " | "@
                + crate::report::or_dash(big@[k].data_type) + " | "@ + crate::report::ttl_text(
                big@[k].ttl,
            ) + " | "@ + ("`"@ + crate::report::md_escaped(big@[k].key@) + "`"@) + " |\n"@,
        ),
{
    crate::report::reports_show_every_big_key(stats, opts, big@, k);
}

} // verus!
