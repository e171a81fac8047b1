//! What the viewer shows: the texts, colours and cursors of every screen.
//!
//! A screen is described by plain values; whoever owns the terminal lays them
//! out and paints them.

use crate::binary64::{at_least, in_whole_percent, pct, pct_text, reaches, whole_percent};
use crate::inspect::KeyValue;
use crate::leaderboard::BigKey;
use crate::names::{Entry, NameMap};
use crate::report::{
    avg_of, dashed, data_types_text, format_size, lists_biggest, or_dash, size_text, ttl_label,
    ttl_text,
};
use crate::rows::{
    display_key, display_type, filtered_namespaces, filtered_types, is_persist_row,
    persistent_bytes, persistent_keys, persistent_rows,
    persistent_totals, shown_key, shown_ns, shown_persistent, shown_type,
    sort_name, type_at, NsRow, TypeRow,
};
use crate::serverinfo::{fullness, ServerInfo};
use crate::stats::{by_ns_bytes, by_ns_count, Stats, TypeStat};
use crate::text::{
    dec, decimal, pad_left, pad_right, padded_left, padded_right, texts, truncate, truncated,
};
use crate::tui::{
    selected_ns, selected_types, tab_index, tab_title, tabs, App, AppModel, Pane, Screen, Tab,
};
use crate::value::{encoding_name, Encoding};
use vstd::prelude::*;

verus! {

/// A foreground colour; plain text keeps the terminal's own, so that it stays
/// readable on dark and light themes.
#[derive(Debug, Clone, Copy, PartialEq, Eq, Structural)]
pub enum Tone {
    Plain,
    Gray,
    DarkGray,
    Red,
    Yellow,
    Green,
    Cyan,
    Magenta,
    Black,
}

/// A text with its colour and weight.
#[derive(Debug)]
pub struct Piece {
    pub text: String,
    pub tone: Tone,
    pub bold: bool,
}

/// What a piece shows.
pub struct Ink {
    pub text: Seq<char>,
    pub tone: Tone,
    pub bold: bool,
}

/// A text of normal weight.
pub open spec fn ink(text: Seq<char>, tone: Tone) -> Ink {
    Ink { text, tone, bold: false }
}

/// A bold text.
pub open spec fn bold_ink(text: Seq<char>, tone: Tone) -> Ink {
    Ink { text, tone, bold: true }
}

impl View for Piece {
    type V = Ink;

    open spec fn view(&self) -> Ink {
        Ink { text: self.text@, tone: self.tone, bold: self.bold }
    }
}

/// What a line of pieces shows.
pub open spec fn line_of(v: Seq<Piece>) -> Seq<Ink> {
    Seq::new(v.len(), |i: int| v[i]@)
}

fn piece(text: String, tone: Tone) -> (r: Piece)
    ensures
        r@ == ink(text@, tone),
{
    Piece { text, tone, bold: false }
}

fn bold_piece(text: String, tone: Tone) -> (r: Piece)
    ensures
        r@ == bold_ink(text@, tone),
{
    Piece { text, tone, bold: true }
}

/// A selection in a list of `len`: none in an empty list, else the given one if
/// it is in range, else the first.
pub open spec fn clamped(sel: Option<usize>, len: nat) -> Option<usize> {
    if len == 0 {
        None
    } else {
        match sel {
            Some(i) => if i < len {
                sel
            } else {
                Some(0)
            },
            None => Some(0),
        }
    }
}

/// Keep a selection valid as a list fills in or shrinks.
fn clamp(sel: Option<usize>, len: usize) -> (r: Option<usize>)
    ensures
        r == clamped(sel, len as nat),
{
    if len == 0 {
        None
    } else {
        match sel {
            Some(i) => if i < len {
                Some(i)
            } else {
                Some(0)
            },
            None => Some(0),
        }
    }
}

// ---------------------------------------------------------------------------
// Frame
// ---------------------------------------------------------------------------

/// What the frame holds.
#[derive(Debug, Clone, Copy, PartialEq, Eq, Structural)]
pub enum Page {
    Picker { selected: usize },
    Keys,
    Value,
    Running(Tab),
}

/// Choose what the frame holds.
pub fn page(app: &App) -> (r: Page)
    ensures
        r == (match app.screen {
            Screen::Picking { selected } => Page::Picker { selected },
            Screen::Keys => Page::Keys,
            Screen::Value => Page::Value,
            Screen::Running => Page::Running(app.tab),
        }),
{
    match app.screen {
        Screen::Picking { selected } => Page::Picker { selected },
        Screen::Keys => Page::Keys,
        Screen::Value => Page::Value,
        Screen::Running => Page::Running(app.tab),
    }
}

/// The top-level tab strip: titles and the active one.
pub fn tab_bar(tab: Tab, advanced: bool) -> (r: (Vec<String>, usize))
    ensures
        texts(r.0@) == tabs(advanced).map_values(|t: Tab| tab_title(t)),
        r.1 == tab_index(tab, advanced),
        r.1 < r.0@.len(),
{
    let shown = Tab::available(advanced);
    let mut titles: Vec<String> = Vec::new();
    let mut i: usize = 0;
    while i < shown.len()
        invariant
            0 <= i <= shown@.len(),
            shown@ == tabs(advanced),
            titles@.len() == i,
            forall|k: int| 0 <= k < i ==> (#[trigger] titles@[k])@ == tab_title(shown@[k]),
        decreases shown@.len() - i,
    {
        titles.push(shown[i].title().to_owned());
        i = i + 1;
    }
    assert(texts(titles@) =~= tabs(advanced).map_values(|t: Tab| tab_title(t)));
    (titles, tab.index(advanced))
}

/// A rectangle of character cells.
#[derive(Debug, Clone, Copy, PartialEq, Eq, Structural)]
pub struct Area {
    pub x: u16,
    pub y: u16,
    pub width: u16,
    pub height: u16,
}

/// The smaller of two lengths.
pub open spec fn smaller(a: u16, b: u16) -> u16 {
    if a < b {
        a
    } else {
        b
    }
}

/// A rectangle of `width` by `height` centered inside `area`, clamped to fit.
pub fn centered_rect(width: u16, height: u16, area: Area) -> (r: Area)
    requires
        area.x + (area.width - smaller(width, area.width)) / 2 <= u16::MAX,
        area.y + (area.height - smaller(height, area.height)) / 2 <= u16::MAX,
    ensures
        r.width == smaller(width, area.width),
        r.height == smaller(height, area.height),
        r.x == area.x + (area.width - r.width) / 2,
        r.y == area.y + (area.height - r.height) / 2,
        area.x <= r.x && r.x + r.width <= area.x + area.width,
        area.y <= r.y && r.y + r.height <= area.y + area.height,
{
    let w: u16 = if width < area.width {
        width
    } else {
        area.width
    };
    let h: u16 = if height < area.height {
        height
    } else {
        area.height
    };
    Area {
        x: area.x + (area.width - w) / 2,
        y: area.y + (area.height - h) / 2,
        width: w,
        height: h,
    }
}

// ---------------------------------------------------------------------------
// Header
// ---------------------------------------------------------------------------

/// The scan gauge.
#[derive(Debug)]
pub struct Gauge {
    pub title: String,
    pub label: String,
    pub tone: Tone,
    /// The bar is drawn full rather than empty.
    pub full: bool,
}

/// The label of the scan gauge.
pub open spec fn gauge_label(total: u64, done: bool, failed: bool) -> Seq<char> {
    if failed {
        "Connection failed — see message below"@
    } else if !done && total == 0 {
        "Connecting…"@
    } else if done {
        "Scan complete — "@ + dec(total as nat) + " keys"@
    } else {
        "Scanning… "@ + dec(total as nat) + " keys so far"@
    }
}

/// The scan gauge: failed, connecting, complete or scanning.
pub fn header(total: u64, done: bool, failed: bool, advanced: bool) -> (r: Gauge)
    ensures
        r.title@ == " shopware-redis-cli-helper · "@ + (if advanced {
            "advanced"@
        } else {
            "basic"@
        }) + " "@,
        r.label@ == gauge_label(total, done, failed),
        r.tone == (if failed {
            Tone::Red
        } else if !done && total == 0 {
            Tone::Yellow
        } else if done {
            Tone::Green
        } else {
            Tone::Cyan
        }),
        r.full == (failed || done),
{
    let mut title = " shopware-redis-cli-helper · ".to_owned();
    title.append(
        if advanced {
            "advanced"
        } else {
            "basic"
        },
    );
    title.append(" ");
    if failed {
        Gauge {
            title,
            label: "Connection failed — see message below".to_owned(),
            tone: Tone::Red,
            full: true,
        }
    } else if !done && total == 0 {
        Gauge { title, label: "Connecting…".to_owned(), tone: Tone::Yellow, full: false }
    } else if done {
        let mut label = "Scan complete — ".to_owned();
        label.append(decimal(total as u128).as_str());
        label.append(" keys");
        Gauge { title, label, tone: Tone::Green, full: true }
    } else {
        let mut label = "Scanning… ".to_owned();
        label.append(decimal(total as u128).as_str());
        label.append(" keys so far");
        Gauge { title, label, tone: Tone::Cyan, full: false }
    }
}

/// A fragmentation ratio as shown, and whether it is worth flagging.
#[derive(Debug)]
pub struct Fragmentation {
    pub text: String,
    pub high: bool,
}

/// Nine tenths, as a double: this times two to the power of minus 53.
pub const NINE_TENTHS: u64 = 0x1c_cccc_cccc_cccd;

/// Three quarters, as a double: this times two to the power of minus 53.
pub const THREE_QUARTERS: u64 = 0x18_0000_0000_0000;

/// The colour of memory pressure: red from 90 percent, yellow from 75.
pub open spec fn pressure(used: u64, max: u64) -> Tone {
    if at_least(fullness(used, max), NINE_TENTHS as nat) {
        Tone::Red
    } else if at_least(fullness(used, max), THREE_QUARTERS as nat) {
        Tone::Yellow
    } else {
        Tone::Green
    }
}

/// Memory: how full it is when there is a ceiling, else what is in use.
pub open spec fn memory_line(info: ServerInfo) -> Seq<Ink> {
    match info.used_memory {
        Some(used) => if info.maxmemory is Some && info.maxmemory->0 > 0 {
            let max = info.maxmemory->0;
            seq![
                bold_ink(
                    "mem "@ + whole_percent(fullness(used, max)) + "% "@,
                    pressure(used, max),
                ),
                ink("("@ + size_text(used) + "/"@ + size_text(max) + ")  "@, Tone::Gray),
            ]
        } else {
            seq![
                ink("mem "@ + size_text(used) + "  "@, Tone::Magenta),
                ink("(no limit)  "@, Tone::DarkGray),
            ]
        },
        None => Seq::empty(),
    }
}

/// The one-line server stats.
pub open spec fn server_line(info: ServerInfo, frag: Option<Fragmentation>) -> Seq<Ink> {
    let a = seq![ink(" redis "@, Tone::DarkGray)] + memory_line(info);
    let b = match info.db_keys {
        Some(n) => a.push(ink("keys "@ + dec(n as nat) + "  "@, Tone::Cyan)),
        None => a,
    };
    let c = match info.evicted_keys {
        Some(n) => b.push(
            ink(
                "evicted "@ + dec(n as nat) + "  "@,
                if n > 0 {
                    Tone::Yellow
                } else {
                    Tone::Gray
                },
            ),
        ),
        None => b,
    };
    let d = match frag {
        Some(f) => c.push(
            ink(
                "frag "@ + f.text@ + "  "@,
                if f.high {
                    Tone::Yellow
                } else {
                    Tone::Gray
                },
            ),
        ),
        None => c,
    };
    match info.redis_version {
        Some(v) => d.push(ink("v"@ + v@, Tone::DarkGray)),
        None => d,
    }
}

/// The server stats below the scan gauge: how full Redis is, eviction pressure,
/// DB size, fragmentation and version. `frag` is the ratio that `info` carries,
/// rounded for display.
pub fn server_stats(info: &Option<ServerInfo>, frag: &Option<Fragmentation>) -> (r: Vec<Piece>)
    ensures
        line_of(r@) == (match info {
            Some(i) => server_line(*i, *frag),
            None => seq![ink(" redis: connecting…"@, Tone::DarkGray)],
        }),
{
    let mut r: Vec<Piece> = Vec::new();
    match info {
        None => {
            r.push(piece(" redis: connecting…".to_owned(), Tone::DarkGray));
            assert(line_of(r@) =~= seq![ink(" redis: connecting…"@, Tone::DarkGray)]);
        },
        Some(i) => {
            r.push(piece(" redis ".to_owned(), Tone::DarkGray));
            match (i.memory_fullness(), i.used_memory) {
                (Some(x), Some(used)) => {
                    let max: u64 = match i.maxmemory {
                        Some(m) => m,
                        None => 0,
                    };
                    let tone = if reaches(x, NINE_TENTHS) {
                        Tone::Red
                    } else if reaches(x, THREE_QUARTERS) {
                        Tone::Yellow
                    } else {
                        Tone::Green
                    };
                    let mut mem = "mem ".to_owned();
                    mem.append(in_whole_percent(x).as_str());
                    mem.append("% ");
                    r.push(bold_piece(mem, tone));
                    let mut of = "(".to_owned();
                    of.append(format_size(used).as_str());
                    of.append("/");
                    of.append(format_size(max).as_str());
                    of.append(")  ");
                    r.push(piece(of, Tone::Gray));
                },
                (None, Some(used)) => {
                    let mut mem = "mem ".to_owned();
                    mem.append(format_size(used).as_str());
                    mem.append("  ");
                    r.push(piece(mem, Tone::Magenta));
                    r.push(piece("(no limit)  ".to_owned(), Tone::DarkGray));
                },
                _ => {},
            }
            assert(line_of(r@) =~= seq![ink(" redis "@, Tone::DarkGray)] + memory_line(*i));
            if let Some(n) = i.db_keys {
                let mut t = "keys ".to_owned();
                t.append(decimal(n as u128).as_str());
                t.append("  ");
                r.push(piece(t, Tone::Cyan));
            }
            if let Some(n) = i.evicted_keys {
                let mut t = "evicted ".to_owned();
                t.append(decimal(n as u128).as_str());
                t.append("  ");
                r.push(
                    piece(
                        t,
                        if n > 0 {
                            Tone::Yellow
                        } else {
                            Tone::Gray
                        },
                    ),
                );
            }
            if let Some(f) = frag {
                let mut t = "frag ".to_owned();
                t.append(f.text.as_str());
                t.append("  ");
                r.push(
                    piece(
                        t,
                        if f.high {
                            Tone::Yellow
                        } else {
                            Tone::Gray
                        },
                    ),
                );
            }
            if let Some(v) = &i.redis_version {
                let mut t = "v".to_owned();
                t.append(v.as_str());
                r.push(piece(t, Tone::DarkGray));
            }
            assert(line_of(r@) =~= server_line(*i, *frag));
        },
    }
    r
}


// ---------------------------------------------------------------------------
// Browse
// ---------------------------------------------------------------------------

/// A list of coloured lines with a cursor.
#[derive(Debug)]
pub struct ListPanel {
    pub title: String,
    pub rows: Vec<Vec<Piece>>,
    pub selected: Option<usize>,
    pub focused: bool,
}

/// A table with a cursor.
#[derive(Debug)]
pub struct TablePanel {
    pub title: String,
    pub header: Vec<String>,
    pub rows: Vec<Vec<String>>,
    pub selected: Option<usize>,
    pub focused: bool,
}

/// The two panes of the Browse tab.
#[derive(Debug)]
pub struct BrowsePanels {
    pub namespaces: ListPanel,
    pub types: TablePanel,
}

/// One line of the namespace list: everything black on the highlight bar, else
/// a colour per column. Memory is only known in advanced mode.
pub open spec fn ns_line(
    e: Entry<NameMap<TypeStat>>,
    highlighted: bool,
    advanced: bool,
) -> Seq<Ink> {
    let two = seq![
        ink(
            padded_right(truncated(e.name@, 14), 14),
            if highlighted {
                Tone::Black
            } else {
                Tone::Plain
            },
        ),
        ink(
            " "@ + padded_left(dec(by_ns_count()(e.value)), 10),
            if highlighted {
                Tone::Black
            } else {
                Tone::Yellow
            },
        ),
    ];
    if advanced {
        two.push(
            ink(
                "  "@ + padded_left(size_text(by_ns_bytes()(e.value) as u64), 9),
                if highlighted {
                    Tone::Black
                } else {
                    Tone::Magenta
                },
            ),
        )
    } else {
        two
    }
}

fn ns_pieces(row: &NsRow, highlighted: bool, advanced: bool) -> (r: Vec<Piece>)
    ensures
        forall|e: Entry<NameMap<TypeStat>>| #[trigger]
            crate::rows::is_ns_row(*row, e) ==> line_of(r@) == ns_line(e, highlighted, advanced),
{
    let mut r: Vec<Piece> = Vec::new();
    let name = truncate(row.name.as_str(), 14);
    r.push(
        piece(
            pad_right(name.as_str(), 14),
            if highlighted {
                Tone::Black
            } else {
                Tone::Plain
            },
        ),
    );
    let mut keys = " ".to_owned();
    keys.append(pad_left(decimal(row.keys as u128).as_str(), 10).as_str());
    r.push(
        piece(
            keys,
            if highlighted {
                Tone::Black
            } else {
                Tone::Yellow
            },
        ),
    );
    if advanced {
        let mut mem = "  ".to_owned();
        mem.append(pad_left(format_size(row.bytes).as_str(), 9).as_str());
        r.push(
            piece(
                mem,
                if highlighted {
                    Tone::Black
                } else {
                    Tone::Magenta
                },
            ),
        );
    }
    assert forall|e: Entry<NameMap<TypeStat>>| #[trigger]
        crate::rows::is_ns_row(*row, e) implies line_of(r@) == ns_line(
        e,
        highlighted,
        advanced,
    ) by {
        assert(line_of(r@) =~= ns_line(e, highlighted, advanced));
    }
    r
}

/// The columns of the type table. In basic mode only counts are known.
pub open spec fn type_columns(advanced: bool) -> Seq<Seq<char>> {
    if advanced {
        seq!["Type"@, "Keys"@, "%"@, "Total"@, "Avg"@, "Types"@, "P/E"@]
    } else {
        seq!["Type"@, "Keys"@, "%"@]
    }
}

/// One row of the type table.
pub open spec fn type_line(e: Entry<TypeStat>, total: nat, advanced: bool) -> Seq<Seq<char>> {
    let t = e.value;
    let three = seq![
        truncated(shown_type(e.name@), 38),
        dec(t.count as nat),
        pct_text(t.count as nat, total),
    ];
    if advanced {
        three.push(size_text(t.total_bytes)).push(size_text(avg_of(t))).push(
            truncated(data_types_text(t.data_types.listing()), 16),
        ).push(dec(t.persistent as nat) + "/"@ + dec(t.expiring as nat))
    } else {
        three
    }
}

fn type_row_texts(t: &TypeRow, total: u64, advanced: bool) -> (r: Vec<String>)
    ensures
        forall|e: Entry<TypeStat>| #[trigger]
            crate::rows::is_type_row(*t, e) ==> texts(r@) == type_line(e, total as nat, advanced),
{
    let mut r: Vec<String> = Vec::new();
    let name = display_type(t.name.as_str());
    r.push(truncate(name.as_str(), 38));
    r.push(decimal(t.keys as u128));
    r.push(pct(t.keys, total));
    if advanced {
        r.push(format_size(t.total_bytes));
        r.push(format_size(t.avg_bytes));
        r.push(truncate(t.data_types.as_str(), 16));
        let mut split = decimal(t.persistent as u128);
        split.append("/");
        split.append(decimal(t.expiring as u128).as_str());
        r.push(split);
    }
    assert forall|e: Entry<TypeStat>| #[trigger] crate::rows::is_type_row(*t, e) implies texts(r@)
        == type_line(e, total as nat, advanced) by {
        assert(texts(r@) =~= type_line(e, total as nat, advanced));
    }
    r
}

fn type_header(advanced: bool) -> (r: Vec<String>)
    ensures
        texts(r@) == type_columns(advanced),
{
    let mut r: Vec<String> = Vec::new();
    r.push("Type".to_owned());
    r.push("Keys".to_owned());
    r.push("%".to_owned());
    if advanced {
        r.push("Total".to_owned());
        r.push("Avg".to_owned());
        r.push("Types".to_owned());
        r.push("P/E".to_owned());
    }
    assert(texts(r@) =~= type_columns(advanced));
    r
}

/// The namespace list of the Browse tab.
pub open spec fn shows_namespaces(p: ListPanel, a: AppModel, stats: Stats) -> bool {
    let shown = shown_ns(stats, a.filter, a.sort);
    &&& p.title@ == " Namespaces ("@ + dec(shown.len()) + ") "@
    &&& p.rows@.len() == shown.len()
    &&& forall|i: int|
        0 <= i < p.rows@.len() ==> line_of((#[trigger] p.rows@[i])@) == ns_line(
            stats.namespaces.listing()[shown[i]],
            a.pane == Pane::Namespaces && a.ns == Some(i as usize),
            a.advanced,
        )
    &&& p.selected == a.ns
    &&& p.focused == (a.pane == Pane::Namespaces)
}

/// The type table of the Browse tab. Its cursor shows only while it has focus.
pub open spec fn shows_types(p: TablePanel, a: AppModel, stats: Stats) -> bool {
    let types = selected_types(a, stats);
    &&& p.title@ == (match selected_ns(a, stats) {
        Some(at) => " "@ + stats.namespaces.listing()[at].name@ + " — "@ + dec(types.len())
            + " types "@,
        None => " Types "@,
    })
    &&& texts(p.header@) == type_columns(a.advanced)
    &&& p.rows@.len() == types.len()
    &&& forall|i: int|
        0 <= i < p.rows@.len() ==> texts((#[trigger] p.rows@[i])@) == type_line(
            types[i],
            by_ns_count()(stats.namespaces.listing()[selected_ns(a, stats)->0].value),
            a.advanced,
        )
    &&& p.selected == (if a.pane == Pane::Types {
        a.typ
    } else {
        None
    })
    &&& p.focused == (a.pane == Pane::Types)
}

fn namespace_panel(app: &App, stats: &Stats, ns_rows: &Vec<NsRow>) -> (r: ListPanel)
    requires
        ns_rows@.len() == shown_ns(*stats, app.filter@, app.sort).len(),
        forall|i: int|
            0 <= i < ns_rows@.len() ==> crate::rows::is_ns_row(
                #[trigger] ns_rows@[i],
                stats.namespaces.listing()[shown_ns(*stats, app.filter@, app.sort)[i]],
            ),
    ensures
        shows_namespaces(r, app@, *stats),
{
    let focused = app.pane == Pane::Namespaces;
    let mut rows: Vec<Vec<Piece>> = Vec::new();
    let mut i: usize = 0;
    while i < ns_rows.len()
        invariant
            0 <= i <= ns_rows@.len(),
            focused == (app.pane == Pane::Namespaces),
            ns_rows@.len() == shown_ns(*stats, app.filter@, app.sort).len(),
            forall|i: int|
                0 <= i < ns_rows@.len() ==> crate::rows::is_ns_row(
                    #[trigger] ns_rows@[i],
                    stats.namespaces.listing()[shown_ns(*stats, app.filter@, app.sort)[i]],
                ),
            rows@.len() == i,
            forall|k: int|
                0 <= k < i ==> line_of((#[trigger] rows@[k])@) == ns_line(
                    stats.namespaces.listing()[shown_ns(*stats, app.filter@, app.sort)[k]],
                    app.pane == Pane::Namespaces && app.ns == Some(k as usize),
                    app.advanced,
                ),
        decreases ns_rows@.len() - i,
    {
        let here = match app.ns {
            Some(at) => at == i,
            None => false,
        };
        rows.push(ns_pieces(&ns_rows[i], focused && here, app.advanced));
        i = i + 1;
    }
    let mut title = " Namespaces (".to_owned();
    title.append(decimal(ns_rows.len() as u128).as_str());
    title.append(") ");
    ListPanel { title, rows, selected: app.ns, focused }
}

fn type_panel(app: &App, stats: &Stats, ns_rows: &Vec<NsRow>) -> (r: TablePanel)
    requires
        stats.wf(),
        ns_rows@.len() == shown_ns(*stats, app.filter@, app.sort).len(),
        forall|i: int|
            0 <= i < ns_rows@.len() ==> crate::rows::is_ns_row(
                #[trigger] ns_rows@[i],
                stats.namespaces.listing()[shown_ns(*stats, app.filter@, app.sort)[i]],
            ),
    ensures
        shows_types(r, app@, *stats),
{
    let focused = app.pane == Pane::Types;
    let header = type_header(app.advanced);
    let selected = if focused {
        app.typ
    } else {
        None
    };
    let at: usize = match app.ns {
        Some(i) => i,
        None => ns_rows.len(),
    };
    if at >= ns_rows.len() {
        return TablePanel {
            title: " Types ".to_owned(),
            header,
            rows: Vec::new(),
            selected,
            focused,
        };
    }
    let ns = &ns_rows[at];
    let types = filtered_types(stats, ns.name.as_str(), app.filter.as_str(), app.sort);
    let mut rows: Vec<Vec<String>> = Vec::new();
    let mut i: usize = 0;
    while i < types.len()
        invariant
            0 <= i <= types@.len(),
            ns.keys == by_ns_count()(
                stats.namespaces.listing()[selected_ns(app@, *stats)->0].value,
            ),
            types@.len() == selected_types(app@, *stats).len(),
            forall|k: int|
                0 <= k < types@.len() ==> crate::rows::is_type_row(
                    #[trigger] types@[k],
                    selected_types(app@, *stats)[k],
                ),
            rows@.len() == i,
            forall|k: int|
                0 <= k < i ==> texts((#[trigger] rows@[k])@) == type_line(
                    selected_types(app@, *stats)[k],
                    by_ns_count()(stats.namespaces.listing()[selected_ns(app@, *stats)->0].value),
                    app.advanced,
                ),
        decreases types@.len() - i,
    {
        rows.push(type_row_texts(&types[i], ns.keys, app.advanced));
        i = i + 1;
    }
    let mut title = " ".to_owned();
    title.append(ns.name.as_str());
    title.append(" — ");
    title.append(decimal(types.len() as u128).as_str());
    title.append(" types ");
    TablePanel { title, header, rows, selected, focused }
}

/// The Browse tab. The cursor is kept valid first: the list starts empty during
/// a live scan, and its first row is selected once it appears.
pub fn browse(app: &mut App, stats: &Stats) -> (r: BrowsePanels)
    requires
        stats.wf(),
    ensures
        final(app)@ == (AppModel {
            ns: clamped(old(app)@.ns, shown_ns(*stats, old(app)@.filter, old(app)@.sort).len()),
            ..old(app)@
        }),
        shows_namespaces(r.namespaces, final(app)@, *stats),
        shows_types(r.types, final(app)@, *stats),
{
    let ns_rows = filtered_namespaces(stats, app.filter.as_str(), app.sort);
    app.ns = clamp(app.ns, ns_rows.len());
    let namespaces = namespace_panel(app, stats, &ns_rows);
    let types = type_panel(app, stats, &ns_rows);
    BrowsePanels { namespaces, types }
}

// ---------------------------------------------------------------------------
// Biggest keys
// ---------------------------------------------------------------------------

/// One row of the biggest-keys table.
pub open spec fn big_line(b: BigKey, place: nat) -> Seq<Seq<char>> {
    seq![dec(place), size_text(b.bytes), or_dash(b.data_type), ttl_text(b.ttl), shown_key(b.key@)]
}

/// The title of the biggest-keys table; an empty one says why.
pub open spec fn big_title(n: nat, advanced: bool) -> Seq<char> {
    if n == 0 {
        if advanced {
            " Biggest keys — none measured yet "@
        } else {
            " Biggest keys — basic scan; relaunch with advanced mode "@
        }
    } else {
        " Biggest "@ + dec(n) + " keys "@
    }
}

/// The table shows the leaderboard `big`.
pub open spec fn shows_biggest(p: TablePanel, a: AppModel, big: Seq<BigKey>) -> bool {
    &&& p.title@ == big_title(big.len(), a.advanced)
    &&& texts(p.header@) == seq!["#"@, "Size"@, "Type"@, "TTL"@, "Key"@]
    &&& p.rows@.len() == big.len()
    &&& forall|i: int|
        0 <= i < p.rows@.len() ==> texts((#[trigger] p.rows@[i])@) == big_line(
            big[i],
            (i + 1) as nat,
        )
    &&& p.selected == a.big
    &&& p.focused
}

fn words5(a: &str, b: &str, c: &str, d: &str, e: &str) -> (r: Vec<String>)
    ensures
        texts(r@) == seq![a@, b@, c@, d@, e@],
{
    let mut r: Vec<String> = Vec::new();
    r.push(a.to_owned());
    r.push(b.to_owned());
    r.push(c.to_owned());
    r.push(d.to_owned());
    r.push(e.to_owned());
    assert(texts(r@) =~= seq![a@, b@, c@, d@, e@]);
    r
}

/// The biggest-keys tab.
pub fn biggest(app: &mut App, stats: &Stats) -> (r: TablePanel)
    requires
        stats.wf(),
    ensures
        final(app)@ == (AppModel {
            big: clamped(old(app)@.big, stats.retained().len()),
            ..old(app)@
        }),
        lists_biggest(*stats, stats.ranking()),
        shows_biggest(r, final(app)@, stats.ranking()),
{
    let big = stats.biggest();
    app.big = clamp(app.big, big.len());
    let header = words5("#", "Size", "Type", "TTL", "Key");
    let mut rows: Vec<Vec<String>> = Vec::new();
    let mut i: usize = 0;
    while i < big.len()
        invariant
            0 <= i <= big@.len(),
            rows@.len() == i,
            forall|k: int|
                0 <= k < i ==> texts((#[trigger] rows@[k])@) == big_line(big@[k], (k + 1) as nat),
        decreases big@.len() - i,
    {
        let b = &big[i];
        let place = decimal((i + 1) as u128);
        let size = format_size(b.bytes);
        let kind = dashed(&b.data_type);
        let ttl = ttl_label(b.ttl);
        let key = display_key(b.key.as_str());
        rows.push(
            words5(place.as_str(), size.as_str(), kind.as_str(), ttl.as_str(), key.as_str()),
        );
        i = i + 1;
    }
    let title = if big.len() == 0 {
        if app.advanced {
            " Biggest keys — none measured yet ".to_owned()
        } else {
            " Biggest keys — basic scan; relaunch with advanced mode ".to_owned()
        }
    } else {
        let mut t = " Biggest ".to_owned();
        t.append(decimal(big.len() as u128).as_str());
        t.append(" keys ");
        t
    };
    TablePanel { title, header, rows, selected: app.big, focused: true }
}

// ---------------------------------------------------------------------------
// Persistent keys
// ---------------------------------------------------------------------------

/// The Persistent tab: a banner over a table.
#[derive(Debug)]
pub struct PersistentPanels {
    pub banner: Vec<Piece>,
    pub table: TablePanel,
}

/// How many keys have no TTL, and how much of the measured memory they hold.
pub open spec fn persistent_banner(stats: Stats) -> Seq<Ink> {
    seq![
        bold_ink(dec(persistent_keys(stats)) + " persistent keys"@, Tone::Plain),
        ink("  holding  "@, Tone::Plain),
        bold_ink(size_text(persistent_bytes(stats) as u64), Tone::Magenta),
        ink(
            "  ("@ + pct_text(persistent_bytes(stats), stats.measured_bytes as nat)
                + " of measured memory) — won't be freed by expiry"@,
            Tone::Gray,
        ),
    ]
}

/// One row of the persistent-keys table.
pub open spec fn persistent_line(stats: Stats, at: (int, int)) -> Seq<Seq<char>> {
    let t = type_at(stats, at);
    seq![
        truncated(stats.namespaces.listing()[at.0].name@, 16),
        truncated(shown_type(t.name@), 40),
        dec(t.value.persistent as nat),
        size_text(t.value.persistent_bytes),
    ]
}

/// The title of the persistent-keys table.
pub open spec fn persistent_title(n: nat) -> Seq<char> {
    if n == 0 {
        " Persistent keys — none found (every key has a TTL) "@
    } else {
        " Persistent keys by type ("@ + dec(n) + ") "@
    }
}

/// The panels show the persistent keys of `stats`.
pub open spec fn shows_persistent(p: PersistentPanels, a: AppModel, stats: Stats) -> bool {
    let shown = shown_persistent(stats);
    &&& line_of(p.banner@) == persistent_banner(stats)
    &&& p.table.title@ == persistent_title(shown.len())
    &&& texts(p.table.header@) == seq!["Namespace"@, "Type"@, "Keys"@, "Memory"@]
    &&& p.table.rows@.len() == shown.len()
    &&& forall|i: int|
        0 <= i < p.table.rows@.len() ==> texts((#[trigger] p.table.rows@[i])@) == persistent_line(
            stats,
            shown[i],
        )
    &&& p.table.selected == a.persist
    &&& p.table.focused
}

fn words4(a: &str, b: &str, c: &str, d: &str) -> (r: Vec<String>)
    ensures
        texts(r@) == seq![a@, b@, c@, d@],
{
    let mut r: Vec<String> = Vec::new();
    r.push(a.to_owned());
    r.push(b.to_owned());
    r.push(c.to_owned());
    r.push(d.to_owned());
    assert(texts(r@) =~= seq![a@, b@, c@, d@]);
    r
}

fn persistent_banner_pieces(stats: &Stats) -> (r: Vec<Piece>)
    requires
        stats.wf(),
    ensures
        line_of(r@) == persistent_banner(*stats),
{
    let (keys, bytes): (u64, u64) = persistent_totals(stats);
    let mut r: Vec<Piece> = Vec::new();
    let mut count = decimal(keys as u128);
    count.append(" persistent keys");
    r.push(bold_piece(count, Tone::Plain));
    r.push(piece("  holding  ".to_owned(), Tone::Plain));
    r.push(bold_piece(format_size(bytes), Tone::Magenta));
    let mut part = "  (".to_owned();
    part.append(pct(bytes, stats.measured_bytes).as_str());
    part.append(" of measured memory) — won't be freed by expiry");
    r.push(piece(part, Tone::Gray));
    assert(line_of(r@) =~= persistent_banner(*stats));
    r
}

/// The Persistent tab: how many keys have no TTL and how much memory they hold,
/// space that expiry will never reclaim.
pub fn persistent(app: &mut App, stats: &Stats) -> (r: PersistentPanels)
    requires
        stats.wf(),
    ensures
        final(app)@ == (AppModel {
            persist: clamped(old(app)@.persist, shown_persistent(*stats).len()),
            ..old(app)@
        }),
        shows_persistent(r, final(app)@, *stats),
{
    let data = persistent_rows(stats);
    app.persist = clamp(app.persist, data.len());
    let banner = persistent_banner_pieces(stats);
    let header = words4("Namespace", "Type", "Keys", "Memory");
    let mut rows: Vec<Vec<String>> = Vec::new();
    let mut i: usize = 0;
    while i < data.len()
        invariant
            0 <= i <= data@.len(),
            data@.len() == shown_persistent(*stats).len(),
            forall|k: int|
                0 <= k < data@.len() ==> is_persist_row(
                    #[trigger] data@[k],
                    *stats,
                    shown_persistent(*stats)[k],
                ),
            rows@.len() == i,
            forall|k: int|
                0 <= k < i ==> texts((#[trigger] rows@[k])@) == persistent_line(
                    *stats,
                    shown_persistent(*stats)[k],
                ),
        decreases data@.len() - i,
    {
        let row = &data[i];
        let ns = truncate(row.namespace.as_str(), 16);
        let shown = display_type(row.key_type.as_str());
        let kind = truncate(shown.as_str(), 40);
        let keys = decimal(row.keys as u128);
        let size = format_size(row.bytes);
        rows.push(words4(ns.as_str(), kind.as_str(), keys.as_str(), size.as_str()));
        i = i + 1;
    }
    let title = if data.len() == 0 {
        " Persistent keys — none found (every key has a TTL) ".to_owned()
    } else {
        let mut t = " Persistent keys by type (".to_owned();
        t.append(decimal(data.len() as u128).as_str());
        t.append(") ");
        t
    };
    PersistentPanels {
        banner,
        table: TablePanel { title, header, rows, selected: app.persist, focused: true },
    }
}


// ---------------------------------------------------------------------------
// Footer
// ---------------------------------------------------------------------------

/// The filter in force, as the footer shows it.
pub open spec fn filter_note(filter: Seq<char>) -> Seq<char> {
    if filter.len() == 0 {
        Seq::empty()
    } else {
        "  filter=\""@ + filter + "\""@
    }
}

/// The key hints of the running UI.
pub open spec fn hint(a: AppModel) -> Seq<char> {
    let sort = sort_name(a.sort);
    let note = filter_note(a.filter);
    match a.tab {
        Tab::Browse => if a.pane == Pane::Types && a.can_fetch {
            " ↑↓ move  Enter keys  ←/Esc back  Tab: view  s: sort ["@ + sort
                + "]  /: filter  q: quit"@ + note + " "@
        } else {
            " ↑↓ move  →/Enter types  Tab: view  s: sort ["@ + sort + "]  /: filter  q: quit"@
                + note + " "@
        },
        Tab::Biggest => " ↑↓ move  Tab: view  s: sort ["@ + sort + "]  /: filter  q: quit"@ + note
            + " "@,
        Tab::Persistent => " ↑↓ move  Tab: view  /: filter  q: quit"@ + note + " "@,
    }
}

/// The footer: an error, the filter while it is typed, or key hints.
pub open spec fn footer_line(a: AppModel, error: Option<&str>) -> Seq<Ink> {
    match error {
        Some(e) => seq![bold_ink(" ERROR: "@, Tone::Red), ink(e@, Tone::Plain)],
        None => if a.editing_filter {
            seq![
                ink(" filter: "@, Tone::Cyan),
                bold_ink(a.filter + "_"@, Tone::Plain),
                ink("   (Enter/Esc to apply)"@, Tone::Plain),
            ]
        } else {
            seq![ink(hint(a), Tone::Gray)]
        },
    }
}

fn hint_text(app: &App) -> (r: String)
    ensures
        r@ == hint(app@),
{
    let mut note = String::new();
    if crate::text::chars_of(app.filter.as_str()).len() > 0 {
        note.append("  filter=\"");
        note.append(app.filter.as_str());
        note.append("\"");
        assert(note@ =~= filter_note(app.filter@));
    }
    let mut r = match app.tab {
        Tab::Browse => {
            let mut t = if app.pane == Pane::Types && app.can_fetch {
                " ↑↓ move  Enter keys  ←/Esc back  Tab: view  s: sort [".to_owned()
            } else {
                " ↑↓ move  →/Enter types  Tab: view  s: sort [".to_owned()
            };
            t.append(app.sort.label());
            t.append("]  /: filter  q: quit");
            t
        },
        Tab::Biggest => {
            let mut t = " ↑↓ move  Tab: view  s: sort [".to_owned();
            t.append(app.sort.label());
            t.append("]  /: filter  q: quit");
            t
        },
        Tab::Persistent => " ↑↓ move  Tab: view  /: filter  q: quit".to_owned(),
    };
    r.append(note.as_str());
    r.append(" ");
    r
}

/// The footer of the running UI.
pub fn footer(app: &App, error: Option<&str>) -> (r: Vec<Piece>)
    ensures
        line_of(r@) == footer_line(app@, error),
{
    let mut r: Vec<Piece> = Vec::new();
    match error {
        Some(e) => {
            r.push(bold_piece(" ERROR: ".to_owned(), Tone::Red));
            r.push(piece(e.to_owned(), Tone::Plain));
        },
        None => if app.editing_filter {
            r.push(piece(" filter: ".to_owned(), Tone::Cyan));
            let mut typed = app.filter.clone();
            typed.append("_");
            r.push(bold_piece(typed, Tone::Plain));
            r.push(piece("   (Enter/Esc to apply)".to_owned(), Tone::Plain));
        } else {
            r.push(piece(hint_text(app), Tone::Gray));
        },
    }
    assert(line_of(r@) =~= footer_line(app@, error));
    r
}

// ---------------------------------------------------------------------------
// Drill-down
// ---------------------------------------------------------------------------

/// The title line and the key hints of a drill-down screen.
pub fn drill_frame(screen: Screen) -> (r: (String, String))
    ensures
        r.0@ == (if screen == Screen::Value {
            "Inspecting · Value"@
        } else {
            "Inspecting · Keys"@
        }),
        r.1@ == (if screen == Screen::Value {
            " ↑↓/PgUp/PgDn scroll  x: hex/text  ←/Esc back  q quit "@
        } else {
            " ↑↓ move  Enter view value  ←/Esc back  q quit "@
        }),
{
    if screen == Screen::Value {
        (
            "Inspecting · Value".to_owned(),
            " ↑↓/PgUp/PgDn scroll  x: hex/text  ←/Esc back  q quit ".to_owned(),
        )
    } else {
        (
            "Inspecting · Keys".to_owned(),
            " ↑↓ move  Enter view value  ←/Esc back  q quit ".to_owned(),
        )
    }
}

/// The room for a text inside a bordered area of `width` columns.
pub open spec fn text_room(width: u16) -> nat {
    if width < 4 {
        0
    } else {
        (width - 4) as nat
    }
}

fn room(width: u16) -> (r: usize)
    ensures
        r == text_room(width),
{
    if width < 4 {
        0
    } else {
        (width - 4) as usize
    }
}

/// The key list of a type.
#[derive(Debug)]
pub enum KeysPanel {
    /// There is no list (yet).
    Message(String),
    /// Listing failed.
    Error(String),
    List { title: String, rows: Vec<String>, selected: Option<usize> },
}

/// The title of a key list.
pub open spec fn keys_title(
    namespace: Seq<char>,
    key_type: Seq<char>,
    n: nat,
    capped: bool,
) -> Seq<char> {
    " "@ + namespace + " · "@ + shown_type(key_type) + " — "@ + dec(n) + " keys"@ + (if capped {
        " (sample capped) "@
    } else {
        " "@
    })
}

/// The sample key list drilled from a type, for an area of `width` columns.
pub fn key_list(app: &App, width: u16) -> (r: KeysPanel)
    ensures
        match app.key_list {
            None => {
                &&& r is Message
                &&& r->Message_0@ == (if app.loading {
                    "Loading keys…"@
                } else {
                    "No keys."@
                })
            },
            Some(list) => match list.error {
                Some(e) => r is Error && r->Error_0@ == "Error: "@ + e@,
                None => {
                    &&& r is List
                    &&& r->List_title@ == keys_title(
                        list.namespace@,
                        list.key_type@,
                        list.keys@.len(),
                        list.capped,
                    )
                    &&& texts(r->List_rows@) == Seq::new(
                        list.keys@.len(),
                        |i: int| truncated(list.keys@[i]@, text_room(width)),
                    )
                    &&& r->List_selected == app.key_sel
                },
            },
        },
{
    match &app.key_list {
        None => KeysPanel::Message(
            if app.loading {
                "Loading keys…".to_owned()
            } else {
                "No keys.".to_owned()
            },
        ),
        Some(list) => match &list.error {
            Some(e) => {
                let mut t = "Error: ".to_owned();
                t.append(e.as_str());
                KeysPanel::Error(t)
            },
            None => {
                let mut title = " ".to_owned();
                title.append(list.namespace.as_str());
                title.append(" · ");
                title.append(display_type(list.key_type.as_str()).as_str());
                title.append(" — ");
                title.append(decimal(list.keys.len() as u128).as_str());
                title.append(" keys");
                title.append(
                    if list.capped {
                        " (sample capped) "
                    } else {
                        " "
                    },
                );
                let max: usize = room(width);
                let mut rows: Vec<String> = Vec::new();
                let mut i: usize = 0;
                while i < list.keys.len()
                    invariant
                        0 <= i <= list.keys@.len(),
                        max == text_room(width),
                        rows@.len() == i,
                        forall|k: int|
                            0 <= k < i ==> (#[trigger] rows@[k])@ == truncated(
                                list.keys@[k]@,
                                text_room(width),
                            ),
                    decreases list.keys@.len() - i,
                {
                    rows.push(truncate(list.keys[i].as_str(), max));
                    i = i + 1;
                }
                assert(texts(rows@) =~= Seq::new(
                    list.keys@.len(),
                    |i: int| truncated(list.keys@[i]@, text_room(width)),
                ));
                KeysPanel::List { title, rows, selected: app.key_sel }
            },
        },
    }
}

/// A single key's value.
#[derive(Debug)]
pub enum ValuePanel {
    /// There is no value (yet).
    Message(String),
    Shown(ValueText),
}

/// The texts of a single key's value.
#[derive(Debug)]
pub struct ValueText {
    pub key: String,
    /// Type and compression.
    pub kind: Vec<Piece>,
    /// Size, element count and TTL.
    pub facts: Vec<Piece>,
    pub title: String,
    pub body: String,
    pub failed: bool,
    pub scroll: u16,
}

/// How a value was compressed; an embedded stream is noted with its offset.
pub open spec fn compression_note(v: KeyValue) -> Seq<char> {
    let name = encoding_name(v.encoding->0);
    if v.stream_offset is Some && v.stream_offset->0 > 0 {
        "decompressed "@ + name + " (embedded at offset "@ + dec(v.stream_offset->0 as nat) + ")"@
    } else {
        "decompressed from "@ + name
    }
}

/// Type and compression of a value.
pub open spec fn kind_line(v: KeyValue) -> Seq<Ink> {
    let kind = seq![ink("type "@, Tone::DarkGray), ink(v.redis_type@, Tone::Cyan)];
    if v.encoding is Some && v.encoding->0 != Encoding::Plain {
        kind.push(ink("   "@, Tone::Plain)).push(ink(compression_note(v), Tone::Yellow))
    } else {
        kind
    }
}

/// Size, element count and TTL of a value.
pub open spec fn facts_line(v: KeyValue, ttl: Seq<char>) -> Seq<Ink> {
    let a = match v.size_bytes {
        Some(n) => seq![ink("size "@ + size_text(n) + "   "@, Tone::Magenta)],
        None => Seq::empty(),
    };
    let b = match v.elements {
        Some(n) => a.push(ink("elements "@ + dec(n as nat) + "   "@, Tone::Plain)),
        None => a,
    };
    b.push(ink("ttl "@ + ttl, Tone::Plain))
}

/// The title over a value's body.
pub open spec fn value_title(v: KeyValue, hex: bool) -> Seq<char> {
    if v.error is Some {
        " Value "@
    } else if hex && v.hex is Some {
        " Value · hex · "@ + (match v.size_bytes {
            Some(n) => dec(n as nat),
            None => Seq::empty(),
        }) + " bytes  (x: show text) "@
    } else {
        " Value"@ + (if v.is_binary {
            " · binary, shown as text"@
        } else {
            Seq::empty()
        }) + (if v.hex is Some {
            "  (x: show hex) "@
        } else {
            " "@
        })
    }
}

/// A value's body: an error, the hex dump when it is asked for and exists, else
/// the text.
pub open spec fn value_body(v: KeyValue, hex: bool) -> Seq<char> {
    if v.error is Some {
        "Error: "@ + v.error->0@
    } else if hex && v.hex is Some {
        v.hex->0@
    } else {
        v.body@
    }
}

/// `t` shows `v`, with the given text for its TTL.
pub open spec fn shows_value(
    t: ValueText,
    v: KeyValue,
    hex: bool,
    scroll: u16,
    width: u16,
    ttl: Seq<char>,
) -> bool {
    &&& t.key@ == truncated(v.key@, text_room(width))
    &&& line_of(t.kind@) == kind_line(v)
    &&& line_of(t.facts@) == facts_line(v, ttl)
    &&& t.title@ == value_title(v, hex)
    &&& t.body@ == value_body(v, hex)
    &&& t.failed == (v.error is Some)
    &&& t.scroll == scroll
}

fn kind_pieces(v: &KeyValue) -> (r: Vec<Piece>)
    ensures
        line_of(r@) == kind_line(*v),
{
    let mut r: Vec<Piece> = Vec::new();
    r.push(piece("type ".to_owned(), Tone::DarkGray));
    r.push(piece(v.redis_type.clone(), Tone::Cyan));
    if let Some(enc) = v.encoding {
        if enc != Encoding::Plain {
            let off: usize = match v.stream_offset {
                Some(n) => n,
                None => 0,
            };
            let note = if off > 0 {
                let mut t = "decompressed ".to_owned();
                t.append(enc.label());
                t.append(" (embedded at offset ");
                t.append(decimal(off as u128).as_str());
                t.append(")");
                t
            } else {
                let mut t = "decompressed from ".to_owned();
                t.append(enc.label());
                t
            };
            r.push(piece("   ".to_owned(), Tone::Plain));
            r.push(piece(note, Tone::Yellow));
        }
    }
    assert(line_of(r@) =~= kind_line(*v));
    r
}

fn facts_pieces(v: &KeyValue, ttl: &str) -> (r: Vec<Piece>)
    ensures
        line_of(r@) == facts_line(*v, ttl@),
{
    let mut r: Vec<Piece> = Vec::new();
    if let Some(n) = v.size_bytes {
        let mut t = "size ".to_owned();
        t.append(format_size(n).as_str());
        t.append("   ");
        r.push(piece(t, Tone::Magenta));
    }
    if let Some(n) = v.elements {
        let mut t = "elements ".to_owned();
        t.append(decimal(n as u128).as_str());
        t.append("   ");
        r.push(piece(t, Tone::Plain));
    }
    let mut t = "ttl ".to_owned();
    t.append(ttl);
    r.push(piece(t, Tone::Plain));
    assert(line_of(r@) =~= facts_line(*v, ttl@));
    r
}

fn value_title_text(v: &KeyValue, hex: bool) -> (r: String)
    ensures
        r@ == value_title(*v, hex),
{
    if v.error.is_some() {
        " Value ".to_owned()
    } else if hex && v.hex.is_some() {
        let mut t = " Value · hex · ".to_owned();
        match v.size_bytes {
            Some(n) => {
                t.append(decimal(n as u128).as_str());
            },
            None => {
                assert(t@ + Seq::<char>::empty() =~= t@);
            },
        }
        t.append(" bytes  (x: show text) ");
        t
    } else {
        let mut t = " Value".to_owned();
        if v.is_binary {
            t.append(" · binary, shown as text");
        } else {
            assert(t@ + Seq::<char>::empty() =~= t@);
        }
        if v.hex.is_some() {
            t.append("  (x: show hex) ");
        } else {
            t.append(" ");
        }
        t
    }
}

fn value_body_text(v: &KeyValue, hex: bool) -> (r: String)
    ensures
        r@ == value_body(*v, hex),
{
    if let Some(e) = &v.error {
        let mut t = "Error: ".to_owned();
        t.append(e.as_str());
        return t;
    }
    match &v.hex {
        Some(h) => if hex {
            h.clone()
        } else {
            v.body.clone()
        },
        None => v.body.clone(),
    }
}

/// The value of a single key, for an area of `width` columns, with the given
/// text for its TTL.
pub fn value_with(app: &App, width: u16, ttl: &str) -> (r: ValuePanel)
    ensures
        match app.key_value {
            None => {
                &&& r is Message
                &&& r->Message_0@ == (if app.loading {
                    "Loading value…"@
                } else {
                    "No value."@
                })
            },
            Some(v) => r is Shown && shows_value(
                r->Shown_0,
                v,
                app.value_hex,
                app.value_scroll,
                width,
                ttl@,
            ),
        },
{
    match &app.key_value {
        None => ValuePanel::Message(
            if app.loading {
                "Loading value…".to_owned()
            } else {
                "No value.".to_owned()
            },
        ),
        Some(v) => ValuePanel::Shown(
            ValueText {
                key: truncate(v.key.as_str(), room(width)),
                kind: kind_pieces(v),
                facts: facts_pieces(v, ttl),
                title: value_title_text(v, app.value_hex),
                body: value_body_text(v, app.value_hex),
                failed: v.error.is_some(),
                scroll: app.value_scroll,
            },
        ),
    }
}

/// The value of a single key, with the moment at which it expires.
pub fn value(app: &App, width: u16) -> (r: ValuePanel)
    ensures
        match app.key_value {
            None => {
                &&& r is Message
                &&& r->Message_0@ == (if app.loading {
                    "Loading value…"@
                } else {
                    "No value."@
                })
            },
            Some(v) => r is Shown && exists|now: i64, nanos: u32, offset: i32|
                {
                    &&& #[trigger] crate::moment::clock_gave(now, nanos)
                    &&& crate::moment::in_calendar(now)
                    &&& #[trigger] crate::inspect::offset_of_expiry(v.ttl, now, offset)
                    &&& shows_value(
                        r->Shown_0,
                        v,
                        app.value_hex,
                        app.value_scroll,
                        width,
                        crate::inspect::ttl_text_from(v.ttl, now, offset),
                    )
                },
        },
{
    let ttl = match &app.key_value {
        Some(v) => crate::inspect::ttl_with_expiry(v.ttl),
        None => String::new(),
    };
    value_with(app, width, ttl.as_str())
}

// ---------------------------------------------------------------------------
// Depth picker
// ---------------------------------------------------------------------------

/// One option of the depth picker.
#[derive(Debug)]
pub struct PickerOption {
    /// The marker and the title.
    pub title: Vec<Piece>,
    /// What the option does, in the theme's own foreground.
    pub line: Piece,
    /// A further line, shown dimmed.
    pub note: String,
}

/// The title line of an option.
pub open spec fn option_title(title: Seq<char>, selected: bool) -> Seq<Ink> {
    seq![
        ink(
            if selected {
                "▶ "@
            } else {
                "  "@
            },
            Tone::Cyan,
        ),
        bold_ink(
            title,
            if selected {
                Tone::Cyan
            } else {
                Tone::Plain
            },
        ),
    ]
}

fn option_pieces(title: &str, selected: bool) -> (r: Vec<Piece>)
    ensures
        line_of(r@) == option_title(title@, selected),
{
    let mut r: Vec<Piece> = Vec::new();
    if selected {
        r.push(piece("▶ ".to_owned(), Tone::Cyan));
        r.push(bold_piece(title.to_owned(), Tone::Cyan));
    } else {
        r.push(piece("  ".to_owned(), Tone::Cyan));
        r.push(bold_piece(title.to_owned(), Tone::Plain));
    }
    assert(line_of(r@) =~= option_title(title@, selected));
    r
}

/// The headline, the hints and the two options of the depth picker.
#[derive(Debug)]
pub struct PickerPanel {
    pub headline: String,
    pub hints: String,
    pub basic: PickerOption,
    pub advanced: PickerOption,
}

/// The depth picker.
pub fn picker(selected: usize) -> (r: PickerPanel)
    ensures
        r.headline@ == "Choose scan depth"@,
        r.hints@ == " ↑↓ choose  Enter confirm  (b basic / a advanced)  q: quit "@,
        line_of(r.basic.title@) == option_title("Basic"@, selected == 0),
        r.basic.line@ == ink(
            "    Key counts only — one SCAN pass, no per-key round-trips."@,
            Tone::Plain,
        ),
        r.basic.note@ == "    Fast, even on a database with millions of keys."@,
        line_of(r.advanced.title@) == option_title("Advanced"@, selected == 1),
        r.advanced.line@ == ink(
            "    Adds memory, data type, TTL, and the biggest-keys leaderboard."@,
            Tone::Plain,
        ),
        r.advanced.note@
            == "    Richer, but issues extra commands per key — slower on a huge DB."@,
{
    PickerPanel {
        headline: "Choose scan depth".to_owned(),
        hints: " ↑↓ choose  Enter confirm  (b basic / a advanced)  q: quit ".to_owned(),
        basic: PickerOption {
            title: option_pieces("Basic", selected == 0),
            line: piece(
                "    Key counts only — one SCAN pass, no per-key round-trips.".to_owned(),
                Tone::Plain,
            ),
            note: "    Fast, even on a database with millions of keys.".to_owned(),
        },
        advanced: PickerOption {
            title: option_pieces("Advanced", selected == 1),
            line: piece(
                "    Adds memory, data type, TTL, and the biggest-keys leaderboard.".to_owned(),
                Tone::Plain,
            ),
            note: "    Richer, but issues extra commands per key — slower on a huge DB.".to_owned(),
        },
    }
}

} // verus!
