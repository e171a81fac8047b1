use shopware_redis_cli_helper::insights::{
    launch, Delivery, Format, InsightsCmd, Launch, Mode, ReportArgs, ScanArgs,
    TUI_DEFAULT_BIGGEST,
};

fn scan_args() -> ScanArgs {
    ScanArgs::default_for_bare()
}

#[test]
fn resolve_promotes_biggest_to_memory() {
    let mut a = scan_args();
    a.biggest = 20;
    let (mem, _types, _ttl, biggest) = a.resolve(false);
    assert!(mem, "--biggest must imply --memory");
    assert_eq!(biggest, 20);
}

#[test]
fn resolve_full_enables_all_stats() {
    let mut a = scan_args();
    a.full = true;
    let (mem, types, ttl, _) = a.resolve(false);
    assert!(mem && types && ttl);
}

#[test]
fn force_all_enables_everything_and_default_biggest() {
    let a = scan_args(); // no flags set
    let (mem, types, ttl, biggest) = a.resolve(true);
    assert!(mem && types && ttl, "TUI must force full stats");
    assert_eq!(biggest, TUI_DEFAULT_BIGGEST);
}

#[test]
fn force_all_keeps_explicit_biggest() {
    let mut a = scan_args();
    a.biggest = 5;
    let (_, _, _, biggest) = a.resolve(true);
    assert_eq!(biggest, 5, "explicit --biggest must win over the default");
}

#[test]
fn basic_mode_collects_nothing_extra() {
    // advanced=false with no flags -> a pure counts-only scan.
    let a = scan_args();
    let (mem, types, ttl, biggest) = a.resolve(false);
    assert!(!mem && !types && !ttl);
    assert_eq!(biggest, 0);
}

#[test]
fn has_explicit_stats_detects_flags() {
    assert!(!scan_args().has_explicit_stats(), "no flags -> false");

    let mut a = scan_args();
    a.memory = true;
    assert!(a.has_explicit_stats());

    let mut a = scan_args();
    a.full = true;
    assert!(a.has_explicit_stats());

    let mut a = scan_args();
    a.biggest = 1;
    assert!(a.has_explicit_stats());

    // --mode alone is NOT an explicit stat flag (it selects, doesn't force).
    let mut a = scan_args();
    a.mode = Some(Mode::Advanced);
    assert!(!a.has_explicit_stats());
}

#[test]
fn explicit_memory_flag_is_honored_not_forced_to_full() {
    // When the user passes only --memory, basic resolution keeps types/ttl
    // off — we must NOT silently upgrade them to a full scan.
    let mut a = scan_args();
    a.memory = true;
    let (mem, types, ttl, _) = a.resolve(false);
    assert!(mem && !types && !ttl);
}

#[test]
fn preset_depends_on_flags_and_mode() {
    assert_eq!(scan_args().preset(), None);
    let mut a = scan_args();
    a.mode = Some(Mode::Advanced);
    assert_eq!(a.preset(), Some(true));
    a.mode = Some(Mode::Basic);
    assert_eq!(a.preset(), Some(false));
    a.mode = Some(Mode::Advanced);
    a.ttl = true;
    assert_eq!(a.preset(), Some(false));
}

#[test]
fn scan_options_carry_the_arguments() {
    let mut a = scan_args();
    a.count = 7;
    a.limit = 9;
    a.namespace_len = 3;
    a.types = true;
    let o = a.scan_options(false);
    assert_eq!((o.count, o.limit, o.namespace_len), (7, 9, 3));
    assert_eq!((o.want_memory, o.want_types, o.want_ttl, o.biggest), (false, true, false, 0));
}

fn report(format: Format, output: Option<&str>) -> ReportArgs {
    ReportArgs { scan: scan_args(), format, output: output.map(|s| s.to_string()), top: 25 }
}

#[test]
fn tables_fall_back_to_markdown_in_files() {
    assert_eq!(report(Format::Table, None).delivery(), Delivery::Tables);
    assert_eq!(report(Format::Table, Some("x")).delivery(), Delivery::MarkdownInsteadOfTable);
    assert_eq!(report(Format::Markdown, Some("x")).delivery(), Delivery::Markdown);
    assert_eq!(report(Format::Json, None).delivery(), Delivery::Json);
    assert_eq!(report(Format::Json, None).options().top, 25);
}

#[test]
fn bare_command_opens_the_viewer_on_a_terminal() {
    assert_eq!(launch(&None, true), Launch::Tui);
    assert_eq!(launch(&None, false), Launch::Hint);
    assert_eq!(launch(&Some(InsightsCmd::Tui(scan_args())), false), Launch::Tui);
    let cmd = Some(InsightsCmd::Report(report(Format::Table, None)));
    assert_eq!(launch(&cmd, true), Launch::Report);
}
