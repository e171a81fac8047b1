//! Options of the `insights` command and what they resolve to.

use crate::report::ReportOptions;
use crate::scanner::ScanOptions;
use vstd::prelude::*;

verus! {

/// How many biggest keys the TUI tracks by default. Bounded, so it is cheap.
pub const TUI_DEFAULT_BIGGEST: usize = 100;

/// The `insights` subcommands.
#[derive(Debug)]
pub enum InsightsCmd {
    /// Interactive live viewer (scans in the background, fills in as it goes).
    Tui(ScanArgs),
    /// Render a one-shot report to stdout or a file.
    Report(ReportArgs),
}

/// Scan options shared by every insights subcommand.
#[derive(Debug, Clone)]
pub struct ScanArgs {
    /// Only scan keys matching this glob pattern (server-side SCAN MATCH).
    pub pattern: Option<String>,
    /// COUNT hint for SCAN: keys per server-side step.
    pub count: usize,
    /// Stop after this many keys (0 = scan everything).
    pub limit: u64,
    /// Treat the first N bytes as the namespace when a key has no ':'.
    pub namespace_len: usize,
    /// Collect memory usage per key.
    pub memory: bool,
    /// Collect the Redis data type per key.
    pub types: bool,
    /// Collect TTL/expiry stats per key.
    pub ttl: bool,
    /// Shortcut for memory, types and TTL together.
    pub full: bool,
    /// Track and report the N biggest keys by memory (implies memory).
    pub biggest: usize,
    /// TUI scan depth. If omitted, the TUI asks at startup. Ignored when
    /// explicit stat flags are given.
    pub mode: Option<Mode>,
}

/// How much per-key enrichment the TUI scan collects.
#[derive(Debug, Clone, Copy, PartialEq, Eq, Structural)]
pub enum Mode {
    /// Key counts only: one SCAN pass, no extra round-trips.
    Basic,
    /// Memory, data type, TTL, and the biggest-keys leaderboard.
    Advanced,
}

/// The format of a report.
#[derive(Debug, Clone, Copy, PartialEq, Eq, Structural)]
pub enum Format {
    Table,
    Markdown,
    Json,
}

/// Options of `insights report`.
#[derive(Debug)]
pub struct ReportArgs {
    pub scan: ScanArgs,
    /// Output format.
    pub format: Format,
    /// Write to this file instead of stdout.
    pub output: Option<String>,
    /// Only show the top N types per namespace (0 = all).
    pub top: usize,
}

/// Which statistics a scan collects: memory, types, TTL, and how many of the
/// biggest keys.
pub open spec fn resolved(a: ScanArgs, advanced: bool) -> (bool, bool, bool, usize) {
    (
        advanced || a.memory || a.full || a.biggest > 0,
        advanced || a.types || a.full,
        advanced || a.ttl || a.full,
        if advanced && a.biggest == 0 {
            TUI_DEFAULT_BIGGEST
        } else {
            a.biggest
        },
    )
}

/// Some per-key statistic was asked for.
pub open spec fn explicit(a: ScanArgs) -> bool {
    a.memory || a.types || a.ttl || a.full || a.biggest > 0
}

impl ScanArgs {
    /// Whether any per-key enrichment was asked for explicitly. The TUI then
    /// honors the flags and skips the basic/advanced prompt.
    pub fn has_explicit_stats(&self) -> (r: bool)
        ensures
            r == explicit(*self),
    {
        self.memory || self.types || self.ttl || self.full || self.biggest > 0
    }

    /// Resolve which enrichment stats to collect.
    ///
    /// `advanced` forces the full set so every column and view is populated;
    /// otherwise only what the flags request is collected.
    pub fn resolve(&self, advanced: bool) -> (r: (bool, bool, bool, usize))
        ensures
            r == resolved(*self, advanced),
    {
        let mut memory = self.memory || self.full || self.biggest > 0;
        let mut types = self.types || self.full;
        let mut ttl = self.ttl || self.full;
        let mut biggest: usize = self.biggest;
        if advanced {
            memory = true;
            types = true;
            ttl = true;
            if biggest == 0 {
                biggest = TUI_DEFAULT_BIGGEST;
            }
        }
        (memory, types, ttl, biggest)
    }

    /// The scan that these arguments ask for.
    pub fn scan_options(&self, advanced: bool) -> (r: ScanOptions)
        ensures
            r == (ScanOptions {
                count: self.count,
                namespace_len: self.namespace_len,
                limit: self.limit,
                want_memory: resolved(*self, advanced).0,
                want_types: resolved(*self, advanced).1,
                want_ttl: resolved(*self, advanced).2,
                biggest: resolved(*self, advanced).3,
            }),
    {
        let (want_memory, want_types, want_ttl, biggest): (bool, bool, bool, usize) = self.resolve(
            advanced,
        );
        ScanOptions {
            count: self.count,
            namespace_len: self.namespace_len,
            limit: self.limit,
            want_memory,
            want_types,
            want_ttl,
            biggest,
        }
    }

    /// Defaults for a bare `insights` invocation (the TUI prompts for depth).
    pub fn default_for_bare() -> (r: ScanArgs)
        ensures
            r == (ScanArgs {
                pattern: None,
                count: 1000,
                limit: 0,
                namespace_len: 10,
                memory: false,
                types: false,
                ttl: false,
                full: false,
                biggest: 0,
                mode: None,
            }),
    {
        ScanArgs {
            pattern: None,
            count: 1000,
            limit: 0,
            namespace_len: 10,
            memory: false,
            types: false,
            ttl: false,
            full: false,
            biggest: 0,
            mode: None,
        }
    }

    /// The depth with which the TUI starts to scan at once, or `None` when the
    /// user has yet to choose one. Explicit flags are honored exactly, so they
    /// start a scan that adds nothing to them.
    pub fn preset(&self) -> (r: Option<bool>)
        ensures
            r == (if explicit(*self) {
                Some(false)
            } else {
                match self.mode {
                    Some(m) => Some(m == Mode::Advanced),
                    None => None,
                }
            }),
    {
        if self.has_explicit_stats() {
            Some(false)
        } else {
            match self.mode {
                Some(m) => Some(m == Mode::Advanced),
                None => None,
            }
        }
    }
}

/// What is collected also covers everything that was asked for, and advanced
/// depth covers everything that basic depth does.
pub proof fn advanced_covers_basic(a: ScanArgs)
    ensures
        resolved(a, false).0 ==> resolved(a, true).0,
        resolved(a, false).1 ==> resolved(a, true).1,
        resolved(a, false).2 ==> resolved(a, true).2,
        resolved(a, false).3 <= resolved(a, true).3,
        a.memory ==> resolved(a, false).0,
        a.types ==> resolved(a, false).1,
        a.ttl ==> resolved(a, false).2,
        a.biggest > 0 ==> resolved(a, false).0,
        !explicit(a) ==> resolved(a, false) == (false, false, false, 0usize),
{
}

/// What becomes of a bare command line or a subcommand.
#[derive(Debug, Clone, Copy, PartialEq, Eq, Structural)]
pub enum Launch {
    Tui,
    Report,
    Hint,
}

/// What to run: the subcommand, or without one the viewer on a terminal and a
/// hint elsewhere.
pub fn launch(cmd: &Option<InsightsCmd>, on_terminal: bool) -> (r: Launch)
    ensures
        r == (match cmd {
            Some(InsightsCmd::Tui(_)) => Launch::Tui,
            Some(InsightsCmd::Report(_)) => Launch::Report,
            None => if on_terminal {
                Launch::Tui
            } else {
                Launch::Hint
            },
        }),
{
    match cmd {
        Some(InsightsCmd::Tui(_)) => Launch::Tui,
        Some(InsightsCmd::Report(_)) => Launch::Report,
        None => if on_terminal {
            Launch::Tui
        } else {
            Launch::Hint
        },
    }
}

/// How a report leaves the program.
#[derive(Debug, Clone, Copy, PartialEq, Eq, Structural)]
pub enum Delivery {
    /// JSON, to the file or to stdout.
    Json,
    /// Markdown, to the file or to stdout.
    Markdown,
    /// Markdown to the file: tables only make sense on a terminal.
    MarkdownInsteadOfTable,
    /// Tables on stdout.
    Tables,
}

impl ReportArgs {
    /// What the report shows.
    pub fn options(&self) -> (r: ReportOptions)
        ensures
            r == (ReportOptions {
                show_memory: resolved(self.scan, false).0,
                show_types: resolved(self.scan, false).1,
                show_ttl: resolved(self.scan, false).2,
                top: self.top,
                biggest: resolved(self.scan, false).3,
            }),
    {
        let (show_memory, show_types, show_ttl, biggest): (bool, bool, bool, usize) =
            self.scan.resolve(false);
        ReportOptions { show_memory, show_types, show_ttl, top: self.top, biggest }
    }

    /// How the report leaves the program.
    pub fn delivery(&self) -> (r: Delivery)
        ensures
            r == (match self.format {
                Format::Json => Delivery::Json,
                Format::Markdown => Delivery::Markdown,
                Format::Table => if self.output is Some {
                    Delivery::MarkdownInsteadOfTable
                } else {
                    Delivery::Tables
                },
            }),
    {
        match self.format {
            Format::Json => Delivery::Json,
            Format::Markdown => Delivery::Markdown,
            Format::Table => if self.output.is_some() {
                Delivery::MarkdownInsteadOfTable
            } else {
                Delivery::Tables
            },
        }
    }
}

} // verus!
