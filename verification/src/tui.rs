//! The interactive viewer as a state machine: what each key does.
//!
//! The state here is plain; whoever owns the terminal feeds it keys and
//! snapshots, performs the actions that it returns, and draws it.

use crate::inspect::{Inbox, KeyList, KeyValue, Request};
use crate::names::{Entry};
use crate::rows::{
    filtered_namespaces, filtered_types, next_sort, ns_types, persistent_rows, shown_ns,
    shown_persistent, Sort, TypeRow,
};
use crate::serverinfo::ServerInfo;
use crate::stats::{unused, Stats, TypeStat};
use crate::text::{chars_of, string_of};
use vstd::prelude::*;

verus! {

/// Shared snapshot the scan writes and the UI reads.
#[derive(Debug, Clone)]
pub struct Shared {
    pub stats: Stats,
    pub done: bool,
    /// Set if the scan failed; shown in the footer.
    pub error: Option<String>,
    /// Whether the scan collects the advanced stats (memory/type/ttl/biggest).
    pub advanced: bool,
}

impl Default for Shared {
    /// Nothing was scanned yet.
    fn default() -> (r: Self)
        ensures
            unused(r.stats),
            r.stats.cap() == 0,
            !r.done,
            r.error is None,
            !r.advanced,
    {
        Shared { stats: Stats::default(), done: false, error: None, advanced: false }
    }
}

/// The message about a scan that broke off.
pub open spec fn scan_failure(e: Seq<char>) -> Seq<char> {
    "scan failed: "@ + e
}

impl Shared {
    /// The scan has not begun; `advanced` is its depth if that is known.
    pub fn new(advanced: bool) -> (r: Self)
        ensures
            unused(r.stats),
            r.stats.cap() == 0,
            !r.done,
            r.error is None,
            r.advanced == advanced,
    {
        Shared { stats: Stats::default(), done: false, error: None, advanced }
    }

    /// No connection could be made: the scan is over with this error.
    pub fn refuse(&mut self, e: String)
        ensures
            *final(self) == (Shared { error: Some(e), done: true, ..*old(self) }),
    {
        self.error = Some(e);
        self.done = true;
    }

    /// The scan came a step further.
    pub fn publish(&mut self, stats: Stats)
        ensures
            *final(self) == (Shared { stats, ..*old(self) }),
    {
        self.stats = stats;
    }

    /// The scan is over, with its result or with an error. After an error the
    /// last snapshot stays.
    pub fn finish(&mut self, result: Result<Stats, String>)
        ensures
            final(self).done,
            final(self).advanced == old(self).advanced,
            match result {
                Ok(stats) => final(self).stats == stats && final(self).error == old(self).error,
                Err(e) => final(self).stats == old(self).stats && crate::text::text_of(
                    final(self).error,
                ) == Some(scan_failure(e@)),
            },
    {
        match result {
            Ok(stats) => {
                self.stats = stats;
            },
            Err(e) => {
                let mut t = "scan failed: ".to_owned();
                t.append(e.as_str());
                self.error = Some(t);
            },
        }
        self.done = true;
    }
}

/// What the whole screen is showing.
#[derive(Debug, Clone, Copy, PartialEq, Eq, Structural)]
pub enum Screen {
    /// Scan-depth selection. `selected` is the highlighted option (0 = basic,
    /// 1 = advanced).
    Picking { selected: usize },
    /// The normal scan and browse experience.
    Running,
    /// Drill-down: the sample key list for a chosen type.
    Keys,
    /// Drill-down: a single key's value.
    Value,
}

/// The tabs of the running UI.
#[derive(Debug, Clone, Copy, PartialEq, Eq, Structural)]
pub enum Tab {
    /// Namespace list (left) and its type breakdown (right).
    Browse,
    /// Full-screen biggest-keys table.
    Biggest,
    /// Persistent (no-TTL) keys: how much memory expiry cannot free.
    Persistent,
}

/// Which of the two panes of the Browse tab has keyboard focus.
#[derive(Debug, Clone, Copy, PartialEq, Eq, Structural)]
pub enum Pane {
    Namespaces,
    Types,
}

/// A key press.
#[derive(Debug, Clone, Copy, PartialEq, Eq, Structural)]
pub enum Key {
    Char(char),
    Up,
    Down,
    Left,
    Right,
    Enter,
    Esc,
    Backspace,
    Tab,
    BackTab,
    PageUp,
    PageDown,
    Other,
}

/// What has to be done after a key press.
#[derive(Debug)]
pub enum Action {
    Nothing,
    /// The depth was chosen; if `start`, the waiting scan begins.
    Chosen { advanced: bool, start: bool },
    /// The fetcher gets a request.
    Fetch(Request),
}

// ---------------------------------------------------------------------------
// Tabs
// ---------------------------------------------------------------------------

/// The title of a tab.
pub open spec fn tab_title(t: Tab) -> Seq<char> {
    match t {
        Tab::Browse => "Browse"@,
        Tab::Biggest => "Biggest keys"@,
        Tab::Persistent => "Persistent"@,
    }
}

/// The tabs in bar order. Those that need memory and TTL data are hidden in
/// basic mode.
pub open spec fn tabs(advanced: bool) -> Seq<Tab> {
    if advanced {
        seq![Tab::Browse, Tab::Biggest, Tab::Persistent]
    } else {
        seq![Tab::Browse]
    }
}

/// The place of a tab in the bar, or 0 if it is hidden.
pub open spec fn tab_index(t: Tab, advanced: bool) -> int {
    if !advanced {
        0
    } else {
        match t {
            Tab::Browse => 0,
            Tab::Biggest => 1,
            Tab::Persistent => 2,
        }
    }
}

/// The next or previous tab, wrapping.
pub open spec fn cycled(t: Tab, advanced: bool, forward: bool) -> Tab {
    let i = tab_index(t, advanced);
    let n = tabs(advanced).len();
    tabs(advanced)[if forward {
        if i + 1 == n {
            0
        } else {
            i + 1
        }
    } else if i == 0 {
        n - 1
    } else {
        i - 1
    }]
}

/// Going one tab forward and one back leads to where it began.
pub proof fn cycling_back_returns(t: Tab, advanced: bool)
    requires
        tabs(advanced).contains(t),
    ensures
        cycled(cycled(t, advanced, true), advanced, false) == t,
        cycled(cycled(t, advanced, false), advanced, true) == t,
{
    assert(tabs(advanced)[tab_index(t, advanced)] == t);
}

impl Tab {
    /// The title of the tab.
    pub fn title(self) -> (r: &'static str)
        ensures
            r@ == tab_title(self),
    {
        match self {
            Tab::Browse => "Browse",
            Tab::Biggest => "Biggest keys",
            Tab::Persistent => "Persistent",
        }
    }

    /// The tabs available, in bar order.
    pub fn available(advanced: bool) -> (r: Vec<Tab>)
        ensures
            r@ == tabs(advanced),
    {
        let mut r: Vec<Tab> = Vec::new();
        r.push(Tab::Browse);
        if advanced {
            r.push(Tab::Biggest);
            r.push(Tab::Persistent);
        }
        assert(r@ =~= tabs(advanced));
        r
    }

    /// Index of this tab within the available ones (0 if it is hidden).
    pub fn index(self, advanced: bool) -> (r: usize)
        ensures
            r == tab_index(self, advanced),
            r < tabs(advanced).len(),
            tabs(advanced).contains(self) ==> tabs(advanced)[r as int] == self,
    {
        let shown = Tab::available(advanced);
        let mut i: usize = 0;
        while i < shown.len()
            invariant
                0 <= i <= shown@.len(),
                shown@ == tabs(advanced),
                forall|j: int| 0 <= j < i ==> shown@[j] != self,
            decreases shown@.len() - i,
        {
            if shown[i] == self {
                return i;
            }
            i = i + 1;
        }
        proof {
            if advanced {
                assert(tabs(advanced)[tab_index(self, advanced)] == self);
            }
        }
        0
    }

    /// Next or previous tab among the available ones, wrapping.
    pub fn cycle(self, advanced: bool, forward: bool) -> (r: Tab)
        ensures
            r == cycled(self, advanced, forward),
    {
        let shown = Tab::available(advanced);
        let i = self.index(advanced);
        let n: usize = shown.len();
        let next: usize = if forward {
            if i + 1 == n {
                0
            } else {
                i + 1
            }
        } else if i == 0 {
            n - 1
        } else {
            i - 1
        };
        shown[next]
    }
}

// ---------------------------------------------------------------------------
// State
// ---------------------------------------------------------------------------

/// The state of the UI.
#[derive(Debug)]
pub struct App {
    /// Whether the depth picker or the running UI is shown.
    pub screen: Screen,
    /// Whether a scan waits for the depth to be chosen.
    pub waiting: bool,
    pub tab: Tab,
    /// Which Browse pane the arrow keys drive.
    pub pane: Pane,
    pub sort: Sort,
    /// Selection in the (filtered, sorted) namespace list.
    pub ns: Option<usize>,
    /// Selection in the type table of the focused namespace.
    pub typ: Option<usize>,
    /// Selection in the biggest-keys table.
    pub big: Option<usize>,
    /// Selection in the persistent-keys table.
    pub persist: Option<usize>,
    /// Live substring filter (applies to namespace and type names).
    pub filter: String,
    /// True while the filter input box is capturing keystrokes.
    pub editing_filter: bool,
    /// Whether the scan collects advanced stats.
    pub advanced: bool,
    /// Whether there is a fetcher to drill down with.
    pub can_fetch: bool,
    /// Last inbox generation consumed, to detect fresh results.
    pub last_gen: u64,
    /// Currently displayed key list (after drilling into a type).
    pub key_list: Option<KeyList>,
    pub key_sel: Option<usize>,
    /// Currently displayed value (after drilling into a key).
    pub key_value: Option<KeyValue>,
    /// Vertical scroll offset within the value body.
    pub value_scroll: u16,
    /// Show the hex dump rather than the text rendering of a string.
    pub value_hex: bool,
    /// True while a fetch is in flight.
    pub loading: bool,
    /// Latest server stats, if any came in.
    pub info: Option<ServerInfo>,
    pub should_quit: bool,
}

/// The state of the UI, with the filter as text.
pub struct AppModel {
    pub screen: Screen,
    pub waiting: bool,
    pub tab: Tab,
    pub pane: Pane,
    pub sort: Sort,
    pub ns: Option<usize>,
    pub typ: Option<usize>,
    pub big: Option<usize>,
    pub persist: Option<usize>,
    pub filter: Seq<char>,
    pub editing_filter: bool,
    pub advanced: bool,
    pub can_fetch: bool,
    pub last_gen: u64,
    pub key_list: Option<KeyList>,
    pub key_sel: Option<usize>,
    pub key_value: Option<KeyValue>,
    pub value_scroll: u16,
    pub value_hex: bool,
    pub loading: bool,
    pub info: Option<ServerInfo>,
    pub should_quit: bool,
}

impl View for App {
    type V = AppModel;

    open spec fn view(&self) -> AppModel {
        AppModel {
            screen: self.screen,
            waiting: self.waiting,
            tab: self.tab,
            pane: self.pane,
            sort: self.sort,
            ns: self.ns,
            typ: self.typ,
            big: self.big,
            persist: self.persist,
            filter: self.filter@,
            editing_filter: self.editing_filter,
            advanced: self.advanced,
            can_fetch: self.can_fetch,
            last_gen: self.last_gen,
            key_list: self.key_list,
            key_sel: self.key_sel,
            key_value: self.key_value,
            value_scroll: self.value_scroll,
            value_hex: self.value_hex,
            loading: self.loading,
            info: self.info,
            should_quit: self.should_quit,
        }
    }
}

/// The state at startup.
pub open spec fn initial(screen: Screen, waiting: bool, advanced: bool) -> AppModel {
    AppModel {
        screen,
        waiting,
        tab: Tab::Browse,
        pane: Pane::Namespaces,
        sort: Sort::Count,
        ns: Some(0),
        typ: None,
        big: None,
        persist: None,
        filter: Seq::empty(),
        editing_filter: false,
        advanced,
        can_fetch: false,
        last_gen: 0,
        key_list: None,
        key_sel: None,
        key_value: None,
        value_scroll: 0,
        value_hex: false,
        loading: false,
        info: None,
        should_quit: false,
    }
}

/// What has to be done, as texts.
pub enum Act {
    Nothing,
    Chosen { advanced: bool, start: bool },
    ListKeys { namespace: Seq<char>, key_type: Seq<char> },
    GetValue { key: Seq<char> },
}

/// What an action says.
pub open spec fn act_of(a: Action) -> Act {
    match a {
        Action::Nothing => Act::Nothing,
        Action::Chosen { advanced, start } => Act::Chosen { advanced, start },
        Action::Fetch(Request::ListKeys { namespace, key_type }) => Act::ListKeys {
            namespace: namespace@,
            key_type: key_type@,
        },
        Action::Fetch(Request::GetValue { key }) => Act::GetValue { key: key@ },
    }
}

/// The selection one step further in a list of `len`, wrapping; an empty list
/// leaves it alone.
pub open spec fn stepped(sel: Option<usize>, len: nat, delta: int) -> Option<usize> {
    if len == 0 {
        sel
    } else {
        let cur = match sel {
            Some(i) => i as int,
            None => 0,
        };
        Some(((cur + delta) % (len as int)) as usize)
    }
}

/// The namespace under the cursor, by its position in name order.
pub open spec fn selected_ns(a: AppModel, stats: Stats) -> Option<int> {
    let shown = shown_ns(stats, a.filter, a.sort);
    match a.ns {
        Some(i) => if i < shown.len() {
            Some(shown[i as int])
        } else {
            None
        },
        None => None,
    }
}

/// The types of the namespace under the cursor.
pub open spec fn selected_types(a: AppModel, stats: Stats) -> Seq<Entry<TypeStat>> {
    match selected_ns(a, stats) {
        Some(at) => ns_types(stats, stats.namespaces.listing()[at].name@, a.filter, a.sort),
        None => Seq::empty(),
    }
}

/// The focus moves to `target`, but never into an empty Types pane.
pub open spec fn focused(a: AppModel, stats: Stats, target: Pane) -> AppModel {
    if a.tab != Tab::Browse || (target == Pane::Types && selected_types(a, stats).len() == 0) {
        a
    } else {
        AppModel {
            pane: target,
            typ: if target == Pane::Types && a.typ is None {
                Some(0)
            } else {
                a.typ
            },
            ..a
        }
    }
}

/// The cursor of the active list moves by `delta`. Another namespace resets the
/// type cursor.
pub open spec fn moved(a: AppModel, stats: Stats, delta: int) -> AppModel {
    match a.tab {
        Tab::Browse => match a.pane {
            Pane::Namespaces => {
                let len = shown_ns(stats, a.filter, a.sort).len();
                if len == 0 {
                    a
                } else {
                    AppModel { ns: stepped(a.ns, len, delta), typ: Some(0), ..a }
                }
            },
            Pane::Types => AppModel {
                typ: stepped(a.typ, selected_types(a, stats).len(), delta),
                ..a
            },
        },
        Tab::Biggest => AppModel { big: stepped(a.big, stats.retained().len(), delta), ..a },
        Tab::Persistent => AppModel {
            persist: stepped(a.persist, shown_persistent(stats).len(), delta),
            ..a
        },
    }
}

/// The depth is chosen: the UI starts running, and the scan if one waits.
pub open spec fn chosen(a: AppModel, advanced: bool) -> (AppModel, Act) {
    (
        AppModel { advanced, waiting: false, screen: Screen::Running, ..a },
        Act::Chosen { advanced, start: a.waiting },
    )
}

/// The keys of the type under the cursor are requested.
pub open spec fn drilled_type(a: AppModel, stats: Stats) -> (AppModel, Act) {
    let types = selected_types(a, stats);
    if a.can_fetch && selected_ns(a, stats) is Some && a.typ is Some && a.typ->0 < types.len() {
        (
            AppModel { loading: true, ..a },
            Act::ListKeys {
                namespace: stats.namespaces.listing()[selected_ns(a, stats)->0].name@,
                key_type: types[a.typ->0 as int].name@,
            },
        )
    } else {
        (a, Act::Nothing)
    }
}

/// The value of the key under the cursor is requested.
pub open spec fn drilled_key(a: AppModel) -> (AppModel, Act) {
    if a.can_fetch && a.key_list is Some && a.key_sel is Some && a.key_sel->0
        < a.key_list->0.keys@.len() {
        (
            AppModel { loading: true, ..a },
            Act::GetValue { key: a.key_list->0.keys@[a.key_sel->0 as int]@ },
        )
    } else {
        (a, Act::Nothing)
    }
}

pub open spec fn quit(a: AppModel) -> (AppModel, Act) {
    (AppModel { should_quit: true, ..a }, Act::Nothing)
}

pub open spec fn quits(key: Key, ctrl: bool) -> bool {
    key == Key::Char('q') || (key == Key::Char('c') && ctrl)
}

/// A key on the depth picker.
pub open spec fn picking_step(a: AppModel, key: Key, ctrl: bool, selected: usize) -> (AppModel, Act) {
    if quits(key, ctrl) {
        quit(a)
    } else if key == Key::Up || key == Key::Char('k') {
        (AppModel { screen: Screen::Picking { selected: 0 }, ..a }, Act::Nothing)
    } else if key == Key::Down || key == Key::Char('j') {
        (AppModel { screen: Screen::Picking { selected: 1 }, ..a }, Act::Nothing)
    } else if key == Key::Char('b') {
        chosen(a, false)
    } else if key == Key::Char('a') {
        chosen(a, true)
    } else if key == Key::Enter {
        chosen(a, selected == 1)
    } else {
        (a, Act::Nothing)
    }
}

/// The number of keys in the list on display.
pub open spec fn list_len(a: AppModel) -> nat {
    match a.key_list {
        Some(l) => l.keys@.len(),
        None => 0,
    }
}

/// A key on the key list.
pub open spec fn keys_step(a: AppModel, key: Key, ctrl: bool) -> (AppModel, Act) {
    if quits(key, ctrl) {
        quit(a)
    } else if key == Key::Esc || key == Key::Left || key == Key::Char('h') {
        (AppModel { screen: Screen::Running, ..a }, Act::Nothing)
    } else if key == Key::Down || key == Key::Char('j') {
        (AppModel { key_sel: stepped(a.key_sel, list_len(a), 1), ..a }, Act::Nothing)
    } else if key == Key::Up || key == Key::Char('k') {
        (AppModel { key_sel: stepped(a.key_sel, list_len(a), -1), ..a }, Act::Nothing)
    } else if key == Key::Enter || key == Key::Right || key == Key::Char('l') {
        drilled_key(a)
    } else {
        (a, Act::Nothing)
    }
}

/// The scroll offset moved by `delta`, within the range of a `u16`.
pub open spec fn scrolled(from: u16, delta: int) -> u16 {
    let to = from + delta;
    if to < 0 {
        0
    } else if to > u16::MAX {
        u16::MAX
    } else {
        to as u16
    }
}

/// A key on the value view.
pub open spec fn value_step(a: AppModel, key: Key, ctrl: bool) -> (AppModel, Act) {
    let has_hex = a.key_value is Some && a.key_value->0.hex is Some;
    if quits(key, ctrl) {
        quit(a)
    } else if key == Key::Esc || key == Key::Left || key == Key::Char('h') {
        (AppModel { screen: Screen::Keys, key_value: None, ..a }, Act::Nothing)
    } else if key == Key::Char('x') && has_hex {
        (AppModel { value_hex: !a.value_hex, value_scroll: 0, ..a }, Act::Nothing)
    } else if key == Key::Down || key == Key::Char('j') {
        (AppModel { value_scroll: scrolled(a.value_scroll, 1), ..a }, Act::Nothing)
    } else if key == Key::Up || key == Key::Char('k') {
        (AppModel { value_scroll: scrolled(a.value_scroll, -1), ..a }, Act::Nothing)
    } else if key == Key::PageDown {
        (AppModel { value_scroll: scrolled(a.value_scroll, 20), ..a }, Act::Nothing)
    } else if key == Key::PageUp {
        (AppModel { value_scroll: scrolled(a.value_scroll, -20), ..a }, Act::Nothing)
    } else {
        (a, Act::Nothing)
    }
}

/// A key while the filter is edited: Ctrl-C quits, other characters are typed.
/// The cursors go back to the top, so that they stay in range as the lists
/// shrink.
pub open spec fn filter_step(a: AppModel, key: Key, ctrl: bool) -> (AppModel, Act) {
    if key == Key::Char('c') && ctrl {
        quit(a)
    } else {
        (
            AppModel {
                editing_filter: if key == Key::Esc || key == Key::Enter {
                    false
                } else {
                    a.editing_filter
                },
                filter: match key {
                    Key::Backspace => if a.filter.len() > 0 {
                        a.filter.drop_last()
                    } else {
                        a.filter
                    },
                    Key::Char(c) => a.filter.push(c),
                    _ => a.filter,
                },
                ns: Some(0),
                typ: Some(0),
                pane: Pane::Namespaces,
                ..a
            },
            Act::Nothing,
        )
    }
}

/// A key on the running UI. `b` switches between Browse and the biggest keys.
pub open spec fn running_step(a: AppModel, key: Key, ctrl: bool, stats: Stats) -> (AppModel, Act) {
    if quits(key, ctrl) {
        quit(a)
    } else if key == Key::Char('/') {
        (AppModel { editing_filter: true, ..a }, Act::Nothing)
    } else if key == Key::Char('s') {
        (AppModel { sort: next_sort(a.sort), ..a }, Act::Nothing)
    } else if key == Key::Tab {
        (AppModel { tab: cycled(a.tab, a.advanced, true), ..a }, Act::Nothing)
    } else if key == Key::BackTab {
        (AppModel { tab: cycled(a.tab, a.advanced, false), ..a }, Act::Nothing)
    } else if key == Key::Char('b') {
        (
            AppModel {
                tab: if a.tab == Tab::Biggest {
                    Tab::Browse
                } else {
                    cycled(a.tab, a.advanced, true)
                },
                ..a
            },
            Act::Nothing,
        )
    } else if key == Key::Right || key == Key::Char('l') {
        (focused(a, stats, Pane::Types), Act::Nothing)
    } else if key == Key::Left || key == Key::Char('h') || key == Key::Esc {
        (focused(a, stats, Pane::Namespaces), Act::Nothing)
    } else if key == Key::Enter {
        if a.tab != Tab::Browse {
            (a, Act::Nothing)
        } else if a.pane == Pane::Namespaces {
            (focused(a, stats, Pane::Types), Act::Nothing)
        } else {
            drilled_type(a, stats)
        }
    } else if key == Key::Down || key == Key::Char('j') {
        (moved(a, stats, 1), Act::Nothing)
    } else if key == Key::Up || key == Key::Char('k') {
        (moved(a, stats, -1), Act::Nothing)
    } else {
        (a, Act::Nothing)
    }
}

/// What a key does.
pub open spec fn key_step(a: AppModel, key: Key, ctrl: bool, stats: Stats) -> (AppModel, Act) {
    match a.screen {
        Screen::Picking { selected } => picking_step(a, key, ctrl, selected),
        Screen::Keys => keys_step(a, key, ctrl),
        Screen::Value => value_step(a, key, ctrl),
        Screen::Running => if a.editing_filter {
            filter_step(a, key, ctrl)
        } else {
            running_step(a, key, ctrl, stats)
        },
    }
}


/// A fresh value opens the value view, if the user waits for one. Binary values
/// are shown as hex first.
pub open spec fn given_value(a: AppModel, v: Option<KeyValue>) -> AppModel {
    if v is Some && (a.screen == Screen::Keys || a.screen == Screen::Value) {
        AppModel {
            value_hex: v->0.is_binary && v->0.hex is Some,
            key_value: v,
            value_scroll: 0,
            screen: Screen::Value,
            ..a
        }
    } else {
        a
    }
}

/// A fresh key list opens the key view, if the user waits for one.
pub open spec fn given_list(a: AppModel, l: Option<KeyList>) -> AppModel {
    if l is Some && (a.screen == Screen::Running || a.screen == Screen::Keys) {
        AppModel {
            key_list: l,
            key_sel: if l->0.keys@.len() == 0 {
                None
            } else {
                Some(0)
            },
            screen: Screen::Keys,
            ..a
        }
    } else {
        a
    }
}

/// The value in the inbox came after the last look.
pub open spec fn value_is_fresh(a: AppModel, inbox: Inbox) -> bool {
    inbox.key_value is Some && inbox.value_generation > a.last_gen
}

/// The key list in the inbox came after the last look.
pub open spec fn list_is_fresh(a: AppModel, inbox: Inbox) -> bool {
    inbox.key_list is Some && inbox.list_generation > a.last_gen
}

/// The state after the inbox was looked at. Only a fresh result that the
/// current screen waits for changes the screen.
pub open spec fn polled(a: AppModel, inbox: Inbox) -> AppModel {
    if inbox.generation == a.last_gen {
        AppModel { loading: inbox.loading, ..a }
    } else {
        let b = AppModel { loading: inbox.loading, last_gen: inbox.generation, ..a };
        let c = if value_is_fresh(a, inbox) {
            given_value(b, inbox.key_value)
        } else {
            b
        };
        if list_is_fresh(a, inbox) {
            given_list(c, inbox.key_list)
        } else {
            c
        }
    }
}

// ---------------------------------------------------------------------------
// Laws
// ---------------------------------------------------------------------------

/// A selection in a list that is not empty stays inside it.
pub proof fn selection_stays_in_range(sel: Option<usize>, len: nat, delta: int)
    requires
        0 < len <= usize::MAX,
    ensures
        stepped(sel, len, delta) is Some,
        stepped(sel, len, delta)->0 < len,
{
    let cur = match sel {
        Some(i) => i as int,
        None => 0,
    };
    assert(0 <= (cur + delta) % (len as int) < len) by (nonlinear_arith)
        requires
            len > 0,
    ;
}

/// Moving down and up again leads back to the same row.
pub proof fn down_and_up_returns(i: usize, len: nat)
    requires
        i < len <= usize::MAX,
    ensures
        stepped(stepped(Some(i), len, 1), len, -1) == Some(i),
        stepped(stepped(Some(i), len, -1), len, 1) == Some(i),
{
    wraps_forward(i as int, len as int);
    wraps_back(i as int, len as int);
    let down = stepped(Some(i), len, 1)->0;
    let up = stepped(Some(i), len, -1)->0;
    wraps_back(down as int, len as int);
    wraps_forward(up as int, len as int);
}

/// One step forward from inside the list.
pub(crate) proof fn wraps_forward(i: int, len: int)
    requires
        0 <= i < len,
    ensures
        (i + 1) % len == (if i + 1 == len {
            0
        } else {
            i + 1
        }),
{
    if i + 1 == len {
        assert(len % len == 0) by (nonlinear_arith)
            requires
                len > 0,
        ;
    } else {
        assert((i + 1) % len == i + 1) by (nonlinear_arith)
            requires
                0 <= i + 1 < len,
        ;
    }
}

/// One step back from inside the list.
pub(crate) proof fn wraps_back(i: int, len: int)
    requires
        0 <= i < len,
    ensures
        (i - 1) % len == (if i == 0 {
            len - 1
        } else {
            i - 1
        }),
{
    if i == 0 {
        assert((-1int) % len == len - 1) by (nonlinear_arith)
            requires
                len > 0,
        ;
    } else {
        assert((i - 1) % len == i - 1) by (nonlinear_arith)
            requires
                0 <= i - 1 < len,
        ;
    }
}

/// On the running UI no key chooses a depth.
#[verifier::spinoff_prover]
proof fn running_does_not_choose(a: AppModel, key: Key, ctrl: bool, stats: Stats)
    ensures
        running_step(a, key, ctrl, stats).0.waiting == a.waiting,
        !(running_step(a, key, ctrl, stats).1 is Chosen),
{
}

/// The scan starts at most once, and only on the picker: no key makes it wait
/// again, and the key that starts it ends the waiting.
#[verifier::spinoff_prover]
pub proof fn scan_starts_once(a: AppModel, key: Key, ctrl: bool, stats: Stats)
    ensures
        key_step(a, key, ctrl, stats).0.waiting ==> a.waiting,
        key_step(a, key, ctrl, stats).1 matches Act::Chosen { advanced, start } ==> {
            &&& a.screen is Picking
            &&& start == a.waiting
            &&& !key_step(a, key, ctrl, stats).0.waiting
            &&& key_step(a, key, ctrl, stats).0.advanced == advanced
        },
{
    match a.screen {
        Screen::Picking { selected } => {
            let s = picking_step(a, key, ctrl, selected);
            assert(key_step(a, key, ctrl, stats) == s);
        },
        Screen::Keys => {
            let s = keys_step(a, key, ctrl);
            assert(key_step(a, key, ctrl, stats) == s);
        },
        Screen::Value => {
            let s = value_step(a, key, ctrl);
            assert(key_step(a, key, ctrl, stats) == s);
        },
        Screen::Running => {
            if !a.editing_filter {
                running_does_not_choose(a, key, ctrl, stats);
            }
        },
    }
}

/// Without a fetcher nothing is ever requested.
#[verifier::spinoff_prover]
pub proof fn no_fetcher_no_request(a: AppModel, key: Key, ctrl: bool, stats: Stats)
    requires
        !a.can_fetch,
    ensures
        !(key_step(a, key, ctrl, stats).1 is ListKeys),
        !(key_step(a, key, ctrl, stats).1 is GetValue),
{
    match a.screen {
        Screen::Picking { selected } => {
            let s = picking_step(a, key, ctrl, selected);
            assert(key_step(a, key, ctrl, stats) == s);
        },
        Screen::Keys => {
            let s = keys_step(a, key, ctrl);
            assert(key_step(a, key, ctrl, stats) == s);
        },
        Screen::Value => {
            let s = value_step(a, key, ctrl);
            assert(key_step(a, key, ctrl, stats) == s);
        },
        Screen::Running => {
            if !a.editing_filter {
                running_requests_with_a_fetcher(a, key, ctrl, stats);
            }
        },
    }
}

/// On the running UI only a fetcher makes a request possible.
#[verifier::spinoff_prover]
proof fn running_requests_with_a_fetcher(a: AppModel, key: Key, ctrl: bool, stats: Stats)
    requires
        !a.can_fetch,
    ensures
        !(running_step(a, key, ctrl, stats).1 is ListKeys),
        !(running_step(a, key, ctrl, stats).1 is GetValue),
{
    assert(drilled_type(a, stats).1 is Nothing);
}

/// Ctrl-C leaves from every screen, and `q` from every screen on which no
/// filter is typed.
#[verifier::spinoff_prover]
pub proof fn quitting_always_works(a: AppModel, key: Key, ctrl: bool, stats: Stats)
    requires
        quits(key, ctrl),
        a.screen == Screen::Running && a.editing_filter ==> key == Key::Char('c') && ctrl,
    ensures
        key_step(a, key, ctrl, stats) == quit(a),
{
    match a.screen {
        Screen::Picking { selected } => {
            assert(picking_step(a, key, ctrl, selected) == quit(a));
        },
        Screen::Keys => {
            assert(keys_step(a, key, ctrl) == quit(a));
        },
        Screen::Value => {
            assert(value_step(a, key, ctrl) == quit(a));
        },
        Screen::Running => {
            if !a.editing_filter {
                assert(running_step(a, key, ctrl, stats) == quit(a));
            }
        },
    }
}

/// Esc steps back out of a drill-down: from a value to its list, from the list
/// to the running view, whose own state is as it was.
#[verifier::spinoff_prover]
pub proof fn esc_steps_back(a: AppModel, stats: Stats)
    requires
        a.screen == Screen::Value,
    ensures
        ({
            let b = key_step(a, Key::Esc, false, stats).0;
            let c = key_step(b, Key::Esc, false, stats).0;
            &&& b.screen == Screen::Keys
            &&& b.key_value is None
            &&& c == (AppModel { screen: Screen::Running, key_value: None, ..a })
        }),
{
}

/// A late reply never takes the user somewhere they did not ask to go: the
/// picker and the value view stay, whatever the inbox holds, and what was taken
/// in before does not open its screen again.
pub proof fn late_replies_do_not_interrupt(a: AppModel, inbox: Inbox)
    ensures
        a.screen is Picking ==> polled(a, inbox).screen == a.screen,
        a.screen == Screen::Value ==> polled(a, inbox).screen == Screen::Value,
        a.screen == Screen::Running ==> polled(a, inbox).screen != Screen::Value,
        a.screen == Screen::Running && !list_is_fresh(a, inbox) ==> polled(a, inbox).screen
            == Screen::Running,
        a.screen == Screen::Keys && !value_is_fresh(a, inbox) ==> polled(a, inbox).screen
            == Screen::Keys,
        polled(a, inbox).tab == a.tab,
        polled(a, inbox).ns == a.ns,
        polled(a, inbox).typ == a.typ,
        polled(a, inbox).filter == a.filter,
{
}

/// Looking at the same inbox twice changes nothing more.
pub proof fn polling_is_idempotent(a: AppModel, inbox: Inbox)
    ensures
        polled(polled(a, inbox), inbox) == polled(a, inbox),
{
}

/// No key moves the focus into an empty Types pane.
#[verifier::spinoff_prover]
pub proof fn focus_needs_types(a: AppModel, key: Key, ctrl: bool, stats: Stats)
    requires
        a.screen == Screen::Running,
        a.pane == Pane::Namespaces,
        key_step(a, key, ctrl, stats).0.pane == Pane::Types,
    ensures
        selected_types(a, stats).len() > 0,
        key_step(a, key, ctrl, stats).0.typ is Some,
{
}

// ---------------------------------------------------------------------------
// Transitions
// ---------------------------------------------------------------------------

/// The selection one step further in a list of `len`, wrapping.
fn step(sel: Option<usize>, len: usize, forward: bool) -> (r: Option<usize>)
    requires
        len > 0,
    ensures
        r == stepped(
            sel,
            len as nat,
            if forward {
                1
            } else {
                -1
            },
        ),
{
    let cur: usize = match sel {
        Some(i) => i,
        None => 0,
    };
    let at: usize = cur % len;
    proof {
        let n = len as int;
        let q = cur as int / n;
        assert(cur == q * n + at) by (nonlinear_arith)
            requires
                q == cur as int / n,
                at == cur as int % n,
                n > 0,
        ;
        vstd::arithmetic::div_mod::lemma_mod_multiples_vanish(q, at + 1, n);
        vstd::arithmetic::div_mod::lemma_mod_multiples_vanish(q, at - 1, n);
        assert(n * q == q * n) by (nonlinear_arith);
        wraps_forward(at as int, n);
        wraps_back(at as int, n);
    }
    if forward {
        if at + 1 == len {
            Some(0)
        } else {
            Some(at + 1)
        }
    } else if at == 0 {
        Some(len - 1)
    } else {
        Some(at - 1)
    }
}

impl App {
    /// App for an already decided scan: opens on the running UI.
    pub fn new(shared: &Shared) -> (r: Self)
        ensures
            r@ == initial(Screen::Running, false, shared.advanced),
    {
        App::build(Screen::Running, false, shared.advanced)
    }

    /// App that opens on the depth picker; the scan waits for the choice.
    pub fn with_picker() -> (r: Self)
        ensures
            r@ == initial(Screen::Picking { selected: 0 }, true, false),
    {
        App::build(Screen::Picking { selected: 0 }, true, false)
    }

    fn build(screen: Screen, waiting: bool, advanced: bool) -> (r: Self)
        ensures
            r@ == initial(screen, waiting, advanced),
    {
        App {
            screen,
            waiting,
            tab: Tab::Browse,
            pane: Pane::Namespaces,
            sort: Sort::Count,
            ns: Some(0),
            typ: None,
            big: None,
            persist: None,
            filter: String::new(),
            editing_filter: false,
            advanced,
            can_fetch: false,
            last_gen: 0,
            key_list: None,
            key_sel: None,
            key_value: None,
            value_scroll: 0,
            value_hex: false,
            loading: false,
            info: None,
            should_quit: false,
        }
    }

    /// Give the app a fetcher. Without one, Enter on a type does nothing.
    pub fn attach_inspector(&mut self)
        ensures
            final(self)@ == (AppModel { can_fetch: true, ..old(self)@ }),
    {
        self.can_fetch = true;
    }

    /// Give the app the latest server stats.
    pub fn attach_server_info(&mut self, info: Option<ServerInfo>)
        ensures
            final(self)@ == (AppModel { info, ..old(self)@ }),
    {
        self.info = info;
    }

    /// Take in a fresh value.
    fn give_value(&mut self, value: Option<KeyValue>)
        ensures
            final(self)@ == given_value(old(self)@, value),
    {
        if let Some(kv) = value {
            if self.screen == Screen::Keys || self.screen == Screen::Value {
                self.value_hex = kv.is_binary && kv.hex.is_some();
                self.key_value = Some(kv);
                self.value_scroll = 0;
                self.screen = Screen::Value;
            }
        }
    }

    /// Take in a fresh key list.
    fn give_list(&mut self, list: Option<KeyList>)
        ensures
            final(self)@ == given_list(old(self)@, list),
    {
        if let Some(kl) = list {
            if self.screen == Screen::Running || self.screen == Screen::Keys {
                self.key_sel =
                if kl.keys.len() == 0 {
                    None
                } else {
                    Some(0)
                };
                self.key_list = Some(kl);
                self.screen = Screen::Keys;
            }
        }
    }

    /// Consume any fresh result in the inbox and move to the matching screen.
    pub fn poll_inbox(&mut self, inbox: Inbox)
        ensures
            final(self)@ == polled(old(self)@, inbox),
    {
        self.loading = inbox.loading;
        if inbox.generation == self.last_gen {
            return;
        }
        let seen: u64 = self.last_gen;
        self.last_gen = inbox.generation;
        if inbox.value_generation > seen {
            self.give_value(inbox.key_value);
        }
        if inbox.list_generation > seen {
            self.give_list(inbox.key_list);
        }
    }

    /// Request the sample key list for the type under the cursor.
    pub fn drill_into_type(&mut self, stats: &Stats) -> (r: Action)
        requires
            stats.wf(),
        ensures
            (final(self)@, act_of(r)) == drilled_type(old(self)@, *stats),
    {
        if !self.can_fetch {
            return Action::Nothing;
        }
        let ns_rows = filtered_namespaces(stats, self.filter.as_str(), self.sort);
        let at: usize = match self.ns {
            Some(i) => i,
            None => {
                return Action::Nothing;
            },
        };
        if at >= ns_rows.len() {
            return Action::Nothing;
        }
        let namespace = ns_rows[at].name.clone();
        let types = filtered_types(
            stats,
            namespace.as_str(),
            self.filter.as_str(),
            self.sort,
        );
        match self.typ {
            Some(i) => {
                if i >= types.len() {
                    return Action::Nothing;
                }
                self.loading = true;
                Action::Fetch(Request::ListKeys { namespace, key_type: types[i].name.clone() })
            },
            None => Action::Nothing,
        }
    }

    /// Request the value of the key under the cursor.
    pub fn drill_into_key(&mut self) -> (r: Action)
        ensures
            (final(self)@, act_of(r)) == drilled_key(old(self)@),
    {
        if !self.can_fetch {
            return Action::Nothing;
        }
        let key = match (&self.key_list, self.key_sel) {
            (Some(list), Some(i)) => if i < list.keys.len() {
                list.keys[i].clone()
            } else {
                return Action::Nothing;
            },
            _ => {
                return Action::Nothing;
            },
        };
        self.loading = true;
        Action::Fetch(Request::GetValue { key })
    }

    /// Move the selection within the key list (wraps).
    fn move_key_list(&mut self, forward: bool)
        ensures
            final(self)@ == (AppModel {
                key_sel: stepped(
                    old(self)@.key_sel,
                    list_len(old(self)@),
                    if forward {
                        1
                    } else {
                        -1
                    },
                ),
                ..old(self)@
            }),
    {
        let len: usize = match &self.key_list {
            Some(list) => list.keys.len(),
            None => 0,
        };
        if len > 0 {
            self.key_sel = step(self.key_sel, len, forward);
        }
    }

    /// Commit the depth choice and switch to the running UI.
    fn choose_mode(&mut self, advanced: bool) -> (r: Action)
        ensures
            (final(self)@, act_of(r)) == chosen(old(self)@, advanced),
    {
        let start = self.waiting;
        self.advanced = advanced;
        self.waiting = false;
        self.screen = Screen::Running;
        Action::Chosen { advanced, start }
    }

    /// The type rows for the namespace under the cursor.
    pub fn type_rows_for_selection(&self, stats: &Stats) -> (r: Vec<TypeRow>)
        requires
            stats.wf(),
        ensures
            r@.len() == selected_types(self@, *stats).len(),
            forall|i: int|
                0 <= i < r@.len() ==> crate::rows::is_type_row(
                    #[trigger] r@[i],
                    selected_types(self@, *stats)[i],
                ),
    {
        let ns_rows = filtered_namespaces(stats, self.filter.as_str(), self.sort);
        match self.ns {
            Some(i) => if i < ns_rows.len() {
                filtered_types(stats, ns_rows[i].name.as_str(), self.filter.as_str(), self.sort)
            } else {
                Vec::new()
            },
            None => Vec::new(),
        }
    }

    /// Move Browse focus to `target`, but only into Types when there are types
    /// to look at.
    fn focus_pane(&mut self, stats: &Stats, target: Pane)
        requires
            stats.wf(),
        ensures
            final(self)@ == focused(old(self)@, *stats, target),
    {
        if self.tab != Tab::Browse {
            return;
        }
        if target == Pane::Types {
            if self.type_rows_for_selection(stats).len() == 0 {
                return;
            }
            if self.typ.is_none() {
                self.typ = Some(0);
            }
        }
        self.pane = target;
    }

    /// Move the cursor of the active list.
    fn move_selection(&mut self, stats: &Stats, forward: bool)
        requires
            stats.wf(),
        ensures
            final(self)@ == moved(
                old(self)@,
                *stats,
                if forward {
                    1
                } else {
                    -1
                },
            ),
    {
        match self.tab {
            Tab::Browse => match self.pane {
                Pane::Namespaces => {
                    let len: usize = filtered_namespaces(
                        stats,
                        self.filter.as_str(),
                        self.sort,
                    ).len();
                    if len > 0 {
                        self.ns = step(self.ns, len, forward);
                        // Another namespace resets the type cursor.
                        self.typ = Some(0);
                    }
                },
                Pane::Types => {
                    let len: usize = self.type_rows_for_selection(stats).len();
                    if len > 0 {
                        self.typ = step(self.typ, len, forward);
                    }
                },
            },
            Tab::Biggest => {
                let len: usize = stats.biggest().len();
                if len > 0 {
                    self.big = step(self.big, len, forward);
                }
            },
            Tab::Persistent => {
                let len: usize = persistent_rows(stats).len();
                if len > 0 {
                    self.persist = step(self.persist, len, forward);
                }
            },
        }
    }

    /// A key on the depth picker.
    fn on_picker(&mut self, key: Key, ctrl: bool, selected: usize) -> (r: Action)
        ensures
            (final(self)@, act_of(r)) == picking_step(old(self)@, key, ctrl, selected),
    {
        match key {
            Key::Char('q') => {
                self.should_quit = true;
            },
            Key::Up | Key::Char('k') => {
                self.screen = Screen::Picking { selected: 0 };
            },
            Key::Down | Key::Char('j') => {
                self.screen = Screen::Picking { selected: 1 };
            },
            Key::Char('b') => {
                return self.choose_mode(false);
            },
            Key::Char('a') => {
                return self.choose_mode(true);
            },
            Key::Enter => {
                return self.choose_mode(selected == 1);
            },
            Key::Char('c') => {
                if ctrl {
                    self.should_quit = true;
                }
            },
            _ => {},
        }
        Action::Nothing
    }

    /// A key on the key list.
    fn on_keys(&mut self, key: Key, ctrl: bool) -> (r: Action)
        ensures
            (final(self)@, act_of(r)) == keys_step(old(self)@, key, ctrl),
    {
        match key {
            Key::Char('q') => {
                self.should_quit = true;
            },
            Key::Esc | Key::Left | Key::Char('h') => {
                self.screen = Screen::Running;
            },
            Key::Down | Key::Char('j') => {
                self.move_key_list(true);
            },
            Key::Up | Key::Char('k') => {
                self.move_key_list(false);
            },
            Key::Enter | Key::Right | Key::Char('l') => {
                return self.drill_into_key();
            },
            Key::Char('c') => {
                if ctrl {
                    self.should_quit = true;
                }
            },
            _ => {},
        }
        Action::Nothing
    }

    /// Scroll the value by `lines`.
    fn scroll(&mut self, lines: u16, down: bool)
        ensures
            final(self)@ == (AppModel {
                value_scroll: scrolled(
                    old(self)@.value_scroll,
                    if down {
                        lines as int
                    } else {
                        -(lines as int)
                    },
                ),
                ..old(self)@
            }),
    {
        self.value_scroll =
        if down {
            if self.value_scroll > u16::MAX - lines {
                u16::MAX
            } else {
                self.value_scroll + lines
            }
        } else if self.value_scroll < lines {
            0
        } else {
            self.value_scroll - lines
        };
    }

    /// A key on the value view.
    fn on_value(&mut self, key: Key, ctrl: bool) -> (r: Action)
        ensures
            (final(self)@, act_of(r)) == value_step(old(self)@, key, ctrl),
    {
        match key {
            Key::Char('q') => {
                self.should_quit = true;
            },
            Key::Esc | Key::Left | Key::Char('h') => {
                self.screen = Screen::Keys;
                self.key_value = None;
            },
            Key::Char('x') => {
                let has_hex = match &self.key_value {
                    Some(v) => v.hex.is_some(),
                    None => false,
                };
                if has_hex {
                    self.value_hex = !self.value_hex;
                    self.value_scroll = 0;
                }
            },
            Key::Down | Key::Char('j') => {
                self.scroll(1, true);
            },
            Key::Up | Key::Char('k') => {
                self.scroll(1, false);
            },
            Key::PageDown => {
                self.scroll(20, true);
            },
            Key::PageUp => {
                self.scroll(20, false);
            },
            Key::Char('c') => {
                if ctrl {
                    self.should_quit = true;
                }
            },
            _ => {},
        }
        Action::Nothing
    }

    /// A key while the filter is edited.
    fn on_filter(&mut self, key: Key, ctrl: bool) -> (r: Action)
        ensures
            (final(self)@, act_of(r)) == filter_step(old(self)@, key, ctrl),
    {
        if key == Key::Char('c') && ctrl {
            self.should_quit = true;
            return Action::Nothing;
        }
        match key {
            Key::Esc | Key::Enter => {
                self.editing_filter = false;
            },
            Key::Backspace => {
                let v = chars_of(self.filter.as_str());
                if v.len() > 0 {
                    self.filter = string_of(&v, 0, v.len() - 1);
                    assert(v@.subrange(0, v@.len() - 1) =~= v@.drop_last());
                }
            },
            Key::Char(c) => {
                self.filter.push(c);
            },
            _ => {},
        }
        self.ns = Some(0);
        self.typ = Some(0);
        self.pane = Pane::Namespaces;
        Action::Nothing
    }

    /// A key on the running UI.
    #[verifier::spinoff_prover]
    fn on_running(&mut self, key: Key, ctrl: bool, stats: &Stats) -> (r: Action)
        requires
            stats.wf(),
        ensures
            (final(self)@, act_of(r)) == running_step(old(self)@, key, ctrl, *stats),
    {
        match key {
            Key::Char('q') => {
                self.should_quit = true;
            },
            Key::Char('c') => {
                if ctrl {
                    self.should_quit = true;
                }
            },
            Key::Char('/') => {
                self.editing_filter = true;
            },
            Key::Char('s') => {
                self.sort = self.sort.next();
            },
            Key::Tab => {
                self.tab = self.tab.cycle(self.advanced, true);
            },
            Key::BackTab => {
                self.tab = self.tab.cycle(self.advanced, false);
            },
            Key::Char('b') => {
                self.tab =
                if self.tab == Tab::Biggest {
                    Tab::Browse
                } else {
                    self.tab.cycle(self.advanced, true)
                };
            },
            Key::Right | Key::Char('l') => {
                self.focus_pane(stats, Pane::Types);
            },
            Key::Left | Key::Char('h') | Key::Esc => {
                self.focus_pane(stats, Pane::Namespaces);
            },
            Key::Enter => {
                if self.tab == Tab::Browse {
                    if self.pane == Pane::Namespaces {
                        self.focus_pane(stats, Pane::Types);
                    } else {
                        return self.drill_into_type(stats);
                    }
                }
            },
            Key::Down | Key::Char('j') => {
                self.move_selection(stats, true);
            },
            Key::Up | Key::Char('k') => {
                self.move_selection(stats, false);
            },
            _ => {},
        }
        Action::Nothing
    }
}

/// What a key press does to the UI, and what has to be done about it.
pub fn handle_key(app: &mut App, key: Key, ctrl: bool, stats: &Stats) -> (r: Action)
    requires
        stats.wf(),
    ensures
        (final(app)@, act_of(r)) == key_step(old(app)@, key, ctrl, *stats),
{
    match app.screen {
        Screen::Picking { selected } => app.on_picker(key, ctrl, selected),
        Screen::Keys => app.on_keys(key, ctrl),
        Screen::Value => app.on_value(key, ctrl),
        Screen::Running => {
            if app.editing_filter {
                app.on_filter(key, ctrl)
            } else {
                app.on_running(key, ctrl, stats)
            }
        },
    }
}

} // verus!
