//! What the keys of the viewer do, key by key.

use crate::inspect::{Inbox, KeyList, KeyValue};
use crate::rows::{
    filtered_namespaces, filtered_types, ns_types, shown_ns, shown_persistent, NsRow, Sort,
    TypeRow,
};
use crate::stats::Stats;
use crate::tui::{
    key_step, moved, polled, running_step, selected_ns, selected_types, stepped, tabs, Act,
    AppModel, Key, Pane, Screen, Tab,
};
use vstd::prelude::*;

verus! {

/// One row further down or up, around the end.
pub open spec fn row_below(i: int, len: int) -> int {
    if i + 1 == len {
        0
    } else {
        i + 1
    }
}

/// One row further up, around the end.
pub open spec fn row_above(i: int, len: int) -> int {
    if i == 0 {
        len - 1
    } else {
        i - 1
    }
}

/// A step moves the cursor by one row, around the ends of the list; an empty
/// list has nothing to move in.
pub proof fn steps_go_row_by_row(i: usize, len: nat)
    requires
        len <= usize::MAX,
    ensures
        i < len ==> stepped(Some(i), len, 1) == Some(row_below(i as int, len as int) as usize),
        i < len ==> stepped(Some(i), len, -1) == Some(row_above(i as int, len as int) as usize),
        len > 1 ==> stepped(None, len, 1) == Some(1usize),
        len > 0 ==> stepped(None, len, -1) == Some((len - 1) as usize),
        len == 0 ==> stepped(Some(i), len, 1) == Some(i) && stepped(None, len, 1) is None,
{
    if i < len {
        crate::tui::down_and_up_returns(i, len);
        crate::tui::wraps_forward(i as int, len as int);
        crate::tui::wraps_back(i as int, len as int);
    }
    if len > 0 {
        crate::tui::wraps_forward(0, len as int);
        crate::tui::wraps_back(0, len as int);
    }
}

/// The picker: the arrows choose an option, Enter confirms it, `b` and `a`
/// choose at once. A choice starts the scan that waits.
pub proof fn picker_keys(a: AppModel, selected: usize, ctrl: bool, stats: Stats)
    requires
        a.screen == (Screen::Picking { selected }),
    ensures
        ({
            let up = key_step(a, Key::Up, ctrl, stats);
            let down = key_step(a, Key::Down, ctrl, stats);
            let basic = key_step(a, Key::Char('b'), ctrl, stats);
            let advanced = key_step(a, Key::Char('a'), ctrl, stats);
            let enter = key_step(a, Key::Enter, ctrl, stats);
            &&& up.0.screen == (Screen::Picking { selected: 0 }) && up.1 is Nothing
            &&& down.0.screen == (Screen::Picking { selected: 1 }) && down.1 is Nothing
            &&& key_step(a, Key::Char('k'), ctrl, stats) == up
            &&& key_step(a, Key::Char('j'), ctrl, stats) == down
            &&& basic.0 == (AppModel {
                advanced: false,
                waiting: false,
                screen: Screen::Running,
                ..a
            })
            &&& basic.1 == (Act::Chosen { advanced: false, start: a.waiting })
            &&& advanced.0 == (AppModel {
                advanced: true,
                waiting: false,
                screen: Screen::Running,
                ..a
            })
            &&& advanced.1 == (Act::Chosen { advanced: true, start: a.waiting })
            &&& selected == 0 ==> enter == basic
            &&& selected == 1 ==> enter == advanced
        }),
{
}

/// While a filter is typed every character joins it, Backspace takes the last
/// one away, and Enter or Esc ends the typing; the cursors go to the top.
pub proof fn filter_keys(a: AppModel, c: char, stats: Stats)
    requires
        a.screen == Screen::Running,
        a.editing_filter,
    ensures
        ({
            let typed = key_step(a, Key::Char(c), false, stats);
            let back = key_step(a, Key::Backspace, false, stats);
            let enter = key_step(a, Key::Enter, false, stats);
            let esc = key_step(a, Key::Esc, false, stats);
            let top = AppModel { ns: Some(0), typ: Some(0), pane: Pane::Namespaces, ..a };
            &&& typed.0 == (AppModel { filter: a.filter.push(c), ..top })
            &&& typed.1 is Nothing
            &&& a.filter.len() > 0 ==> back.0 == (AppModel { filter: a.filter.drop_last(), ..top })
            &&& a.filter.len() == 0 ==> back.0 == top
            &&& enter.0 == (AppModel { editing_filter: false, ..top })
            &&& esc.0 == enter.0
            &&& key_step(typed.0, Key::Backspace, false, stats).0 == top
        }),
{
    assert(a.filter.push(c).drop_last() =~= a.filter);
}

/// On the running UI `/` opens the filter, `s` goes to the next sort order, and
/// nothing else changes.
#[verifier::spinoff_prover]
pub proof fn filter_and_sort_keys(a: AppModel, stats: Stats)
    requires
        a.screen == Screen::Running,
        !a.editing_filter,
    ensures
        key_step(a, Key::Char('/'), false, stats) == (
            AppModel { editing_filter: true, ..a },
            Act::Nothing,
        ),
        key_step(a, Key::Char('s'), false, stats) == (
            AppModel {
                sort: match a.sort {
                    Sort::Count => Sort::TotalMem,
                    Sort::TotalMem => Sort::AvgMem,
                    Sort::AvgMem => Sort::Count,
                },
                ..a
            },
            Act::Nothing,
        ),
{
}

/// Tab goes through the views in order and BackTab the other way; in basic mode
/// there is only Browse. `b` goes between Browse and the biggest keys.
#[verifier::spinoff_prover]
pub proof fn view_keys(a: AppModel, stats: Stats)
    requires
        a.screen == Screen::Running,
        !a.editing_filter,
        !a.advanced ==> a.tab == Tab::Browse,
    ensures
        ({
            let forward = match a.tab {
                Tab::Browse => Tab::Biggest,
                Tab::Biggest => Tab::Persistent,
                Tab::Persistent => Tab::Browse,
            };
            let back = match a.tab {
                Tab::Browse => Tab::Persistent,
                Tab::Biggest => Tab::Browse,
                Tab::Persistent => Tab::Biggest,
            };
            let b = key_step(a, Key::Char('b'), false, stats);
            &&& a.advanced ==> key_step(a, Key::Tab, false, stats) == (
                AppModel { tab: forward, ..a },
                Act::Nothing,
            )
            &&& a.advanced ==> key_step(a, Key::BackTab, false, stats) == (
                AppModel { tab: back, ..a },
                Act::Nothing,
            )
            &&& !a.advanced ==> key_step(a, Key::Tab, false, stats) == (a, Act::Nothing)
            &&& !a.advanced ==> key_step(a, Key::BackTab, false, stats) == (a, Act::Nothing)
            &&& !a.advanced ==> b == (a, Act::Nothing)
            &&& a.advanced && a.tab == Tab::Browse ==> b == (
                AppModel { tab: Tab::Biggest, ..a },
                Act::Nothing,
            )
            &&& a.advanced && a.tab != Tab::Browse ==> b == (
                AppModel { tab: Tab::Browse, ..a },
                Act::Nothing,
            )
        }),
{
    assert(tabs(true) =~= seq![Tab::Browse, Tab::Biggest, Tab::Persistent]);
    assert(tabs(false) =~= seq![Tab::Browse]);
}

/// What the cursor of Browse stands on: the namespace and the types that the
/// rows show.
proof fn cursor_rows(a: AppModel, stats: Stats, rows: Vec<NsRow>, filter: &str)
    requires
        stats.wf(),
        filter@ == a.filter,
        call_ensures(filtered_namespaces, (&stats, filter, a.sort), rows),
        a.ns is Some,
        a.ns->0 < rows@.len(),
    ensures
        selected_ns(a, stats) is Some,
        stats.namespaces.listing()[selected_ns(a, stats)->0].name@ == rows@[a.ns->0 as int].name@,
        selected_types(a, stats) == ns_types(
            stats,
            rows@[a.ns->0 as int].name@,
            a.filter,
            a.sort,
        ),
{
    let at = shown_ns(stats, a.filter, a.sort);
    assert(rows@.len() == at.len());
    assert(crate::rows::is_ns_row(
        rows@[a.ns->0 as int],
        stats.namespaces.listing()[at[a.ns->0 as int]],
    ));
}

/// Enter on a type asks for the keys of the namespace and type that the rows
/// under the cursors name, if there is a fetcher.
#[verifier::spinoff_prover]
pub proof fn enter_asks_for_the_type_under_the_cursor(
    a: AppModel,
    stats: Stats,
    filter: &str,
    ns: &str,
    rows: Vec<NsRow>,
    types: Vec<TypeRow>,
)
    requires
        stats.wf(),
        filter@ == a.filter,
        call_ensures(filtered_namespaces, (&stats, filter, a.sort), rows),
        a.ns is Some,
        a.ns->0 < rows@.len(),
        ns@ == rows@[a.ns->0 as int].name@,
        call_ensures(filtered_types, (&stats, ns, filter, a.sort), types),
        a.screen == Screen::Running,
        !a.editing_filter,
        a.tab == Tab::Browse,
    ensures
        a.pane == Pane::Types && a.can_fetch && a.typ is Some && a.typ->0 < types@.len()
            ==> key_step(a, Key::Enter, false, stats) == (
            AppModel { loading: true, ..a },
            Act::ListKeys { namespace: ns@, key_type: types@[a.typ->0 as int].name@ },
        ),
        a.pane == Pane::Types && (!a.can_fetch || a.typ is None || a.typ->0 >= types@.len())
            ==> key_step(a, Key::Enter, false, stats) == (a, Act::Nothing),
        a.pane == Pane::Namespaces && types@.len() > 0 ==> key_step(a, Key::Enter, false, stats).0
            == (AppModel {
            pane: Pane::Types,
            typ: if a.typ is None {
                Some(0)
            } else {
                a.typ
            },
            ..a
        }),
        a.pane == Pane::Namespaces && types@.len() == 0 ==> key_step(a, Key::Enter, false, stats)
            == (a, Act::Nothing),
        a.pane == Pane::Namespaces ==> key_step(a, Key::Right, false, stats) == key_step(
            a,
            Key::Enter,
            false,
            stats,
        ),
{
    cursor_rows(a, stats, rows, filter);
    let t = ns_types(stats, ns@, a.filter, a.sort);
    assert(types@.len() == t.len());
    if a.typ is Some && a.typ->0 < types@.len() {
        assert(crate::rows::is_type_row(types@[a.typ->0 as int], t[a.typ->0 as int]));
    }
    assert(key_step(a, Key::Enter, false, stats) == running_step(a, Key::Enter, false, stats));
    assert(key_step(a, Key::Right, false, stats) == running_step(a, Key::Right, false, stats));
}

/// On Browse, Left, `h` and Esc go back to the namespaces.
#[verifier::spinoff_prover]
pub proof fn left_goes_back_to_the_namespaces(a: AppModel, stats: Stats)
    requires
        a.screen == Screen::Running,
        !a.editing_filter,
    ensures
        a.tab == Tab::Browse ==> key_step(a, Key::Left, false, stats) == (
            AppModel { pane: Pane::Namespaces, ..a },
            Act::Nothing,
        ),
        a.tab != Tab::Browse ==> key_step(a, Key::Left, false, stats) == (a, Act::Nothing),
        key_step(a, Key::Esc, false, stats) == key_step(a, Key::Left, false, stats),
        key_step(a, Key::Char('h'), false, stats) == key_step(a, Key::Left, false, stats),
        key_step(a, Key::Char('l'), false, stats) == key_step(a, Key::Right, false, stats),
        key_step(a, Key::Char('j'), false, stats) == key_step(a, Key::Down, false, stats),
        key_step(a, Key::Char('k'), false, stats) == key_step(a, Key::Up, false, stats),
        a.tab != Tab::Browse ==> key_step(a, Key::Enter, false, stats) == (a, Act::Nothing),
{
}

/// Down and Up move the cursor of the list that is active by one row, around
/// its ends; another namespace begins at its first type.
#[verifier::spinoff_prover]
pub proof fn arrows_move_the_active_cursor(
    a: AppModel,
    stats: Stats,
    filter: &str,
    rows: Vec<NsRow>,
)
    requires
        stats.wf(),
        filter@ == a.filter,
        call_ensures(filtered_namespaces, (&stats, filter, a.sort), rows),
        a.screen == Screen::Running,
        !a.editing_filter,
        rows@.len() <= usize::MAX,
    ensures
        a.tab == Tab::Browse && a.pane == Pane::Namespaces && a.ns is Some && a.ns->0 < rows@.len()
            ==> {
            &&& key_step(a, Key::Down, false, stats) == (
                AppModel {
                    ns: Some(row_below(a.ns->0 as int, rows@.len() as int) as usize),
                    typ: Some(0),
                    ..a
                },
                Act::Nothing,
            )
            &&& key_step(a, Key::Up, false, stats) == (
                AppModel {
                    ns: Some(row_above(a.ns->0 as int, rows@.len() as int) as usize),
                    typ: Some(0),
                    ..a
                },
                Act::Nothing,
            )
        },
        a.tab == Tab::Browse && a.pane == Pane::Types ==> {
            &&& key_step(a, Key::Down, false, stats).0 == (AppModel {
                typ: stepped(a.typ, selected_types(a, stats).len(), 1),
                ..a
            })
            &&& key_step(a, Key::Up, false, stats).0 == (AppModel {
                typ: stepped(a.typ, selected_types(a, stats).len(), -1),
                ..a
            })
        },
        a.tab == Tab::Biggest ==> {
            &&& key_step(a, Key::Down, false, stats).0 == (AppModel {
                big: stepped(a.big, stats.retained().len(), 1),
                ..a
            })
            &&& key_step(a, Key::Up, false, stats).0 == (AppModel {
                big: stepped(a.big, stats.retained().len(), -1),
                ..a
            })
        },
        a.tab == Tab::Persistent ==> {
            &&& key_step(a, Key::Down, false, stats).0 == (AppModel {
                persist: stepped(a.persist, shown_persistent(stats).len(), 1),
                ..a
            })
            &&& key_step(a, Key::Up, false, stats).0 == (AppModel {
                persist: stepped(a.persist, shown_persistent(stats).len(), -1),
                ..a
            })
        },
{
    assert(rows@.len() == shown_ns(stats, a.filter, a.sort).len());
    if a.ns is Some && a.ns->0 < rows@.len() {
        steps_go_row_by_row(a.ns->0, rows@.len());
    }
    assert(key_step(a, Key::Down, false, stats) == (moved(a, stats, 1), Act::Nothing));
    assert(key_step(a, Key::Up, false, stats) == (moved(a, stats, -1), Act::Nothing));
}

/// On the key list, the arrows move by one key around the ends, Enter asks for
/// the value of the key under the cursor, and Esc goes back to the running UI.
pub proof fn key_list_keys(a: AppModel, l: KeyList, stats: Stats)
    requires
        a.screen == Screen::Keys,
        a.key_list == Some(l),
        a.key_sel is Some,
        a.key_sel->0 < l.keys@.len() <= usize::MAX,
    ensures
        ({
            let i = a.key_sel->0 as int;
            let n = l.keys@.len() as int;
            &&& key_step(a, Key::Down, false, stats) == (
                AppModel { key_sel: Some(row_below(i, n) as usize), ..a },
                Act::Nothing,
            )
            &&& key_step(a, Key::Up, false, stats) == (
                AppModel { key_sel: Some(row_above(i, n) as usize), ..a },
                Act::Nothing,
            )
            &&& a.can_fetch ==> key_step(a, Key::Enter, false, stats) == (
                AppModel { loading: true, ..a },
                Act::GetValue { key: l.keys@[i]@ },
            )
            &&& key_step(a, Key::Right, false, stats) == key_step(a, Key::Enter, false, stats)
            &&& key_step(a, Key::Char('l'), false, stats) == key_step(a, Key::Enter, false, stats)
            &&& key_step(a, Key::Char('j'), false, stats) == key_step(a, Key::Down, false, stats)
            &&& key_step(a, Key::Char('k'), false, stats) == key_step(a, Key::Up, false, stats)
            &&& key_step(a, Key::Esc, false, stats) == (
                AppModel { screen: Screen::Running, ..a },
                Act::Nothing,
            )
            &&& key_step(a, Key::Left, false, stats) == key_step(a, Key::Esc, false, stats)
            &&& key_step(a, Key::Char('h'), false, stats) == key_step(a, Key::Esc, false, stats)
        }),
{
    steps_go_row_by_row(a.key_sel->0, l.keys@.len());
}

/// On the value view, `x` goes between text and hex if there is a hex view, the
/// arrows scroll by a line and the page keys by twenty, and Esc goes back.
pub proof fn value_keys(a: AppModel, stats: Stats)
    requires
        a.screen == Screen::Value,
    ensures
        ({
            let x = key_step(a, Key::Char('x'), false, stats);
            let down = key_step(a, Key::Down, false, stats);
            let up = key_step(a, Key::Up, false, stats);
            let page_down = key_step(a, Key::PageDown, false, stats);
            let page_up = key_step(a, Key::PageUp, false, stats);
            let at = a.value_scroll;
            &&& a.key_value is Some && a.key_value->0.hex is Some ==> x == (
                AppModel { value_hex: !a.value_hex, value_scroll: 0, ..a },
                Act::Nothing,
            )
            &&& a.key_value is None || a.key_value->0.hex is None ==> x == (a, Act::Nothing)
            &&& down == (AppModel { value_scroll: down.0.value_scroll, ..a }, Act::Nothing)
            &&& up == (AppModel { value_scroll: up.0.value_scroll, ..a }, Act::Nothing)
            &&& page_down == (AppModel { value_scroll: page_down.0.value_scroll, ..a }, Act::Nothing)
            &&& page_up == (AppModel { value_scroll: page_up.0.value_scroll, ..a }, Act::Nothing)
            &&& at < 65535 ==> down.0.value_scroll == at + 1
            &&& at > 0 ==> up.0.value_scroll == at - 1
            &&& at == 0 ==> up.0.value_scroll == 0
            &&& at <= 65515 ==> page_down.0.value_scroll == at + 20
            &&& at > 65515 ==> page_down.0.value_scroll == 65535
            &&& at >= 20 ==> page_up.0.value_scroll == at - 20
            &&& at < 20 ==> page_up.0.value_scroll == 0
            &&& key_step(a, Key::Esc, false, stats) == (
                AppModel { screen: Screen::Keys, key_value: None, ..a },
                Act::Nothing,
            )
            &&& key_step(a, Key::Left, false, stats) == key_step(a, Key::Esc, false, stats)
            &&& key_step(a, Key::Char('h'), false, stats) == key_step(a, Key::Esc, false, stats)
            &&& key_step(a, Key::Char('j'), false, stats) == down
            &&& key_step(a, Key::Char('k'), false, stats) == up
        }),
{
}

/// A fresh key list opens at its first key where one is waited for, and a fresh
/// value opens at its first line, as hex if it is binary.
pub proof fn fresh_replies_open_their_view(a: AppModel, inbox: Inbox, l: KeyList, v: KeyValue)
    requires
        inbox.generation != a.last_gen,
    ensures
        inbox.key_list == Some(l) && inbox.list_generation > a.last_gen
            && inbox.value_generation <= a.last_gen && (a.screen == Screen::Running || a.screen
            == Screen::Keys) ==> {
            let b = polled(a, inbox);
            &&& b.screen == Screen::Keys
            &&& b.key_list == Some(l)
            &&& l.keys@.len() > 0 ==> b.key_sel == Some(0usize)
            &&& l.keys@.len() == 0 ==> b.key_sel is None
        },
        inbox.key_value == Some(v) && inbox.value_generation > a.last_gen && inbox.list_generation
            <= a.last_gen && (a.screen == Screen::Keys || a.screen == Screen::Value) ==> {
            let b = polled(a, inbox);
            &&& b.screen == Screen::Value
            &&& b.key_value == Some(v)
            &&& b.value_scroll == 0
            &&& b.value_hex <==> v.is_binary && v.hex is Some
        },
        polled(a, inbox).last_gen == inbox.generation,
        polled(a, inbox).loading == inbox.loading,
{
}

/// A key that has no meaning on a screen changes nothing.
#[verifier::spinoff_prover]
pub proof fn other_keys_do_nothing(a: AppModel, ctrl: bool, stats: Stats)
    requires
        !(a.screen == Screen::Running && a.editing_filter),
    ensures
        key_step(a, Key::Other, ctrl, stats) == (a, Act::Nothing),
        key_step(a, Key::Backspace, ctrl, stats) == (a, Act::Nothing),
        a.screen != Screen::Value ==> key_step(a, Key::PageUp, ctrl, stats) == (a, Act::Nothing),
        key_step(a, Key::Char('c'), false, stats) == (a, Act::Nothing),
{
}

} // verus!
