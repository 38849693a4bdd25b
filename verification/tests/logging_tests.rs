use winglide::logging::console::{toggle, ConsoleAction, ConsoleState};
use winglide::logging::formatter::{
    CleanFormatter, Indent, LogEvent, LogField, LogLevel, LogSpan, LogTree,
};

const RESET: &str = "\x1b[0m";
const DIM_CYAN: &str = "\x1b[2;36m";

fn event(level: LogLevel, tag: Option<&str>, msg: &str, fields: Vec<(&str, &str)>) -> LogTree {
    LogTree::Event(LogEvent {
        level,
        tag_prefix: tag.map(|t| t.to_string()),
        message: Some(msg.to_string()),
        fields: fields
            .into_iter()
            .map(|(k, v)| LogField { key: k.to_string(), value: v.to_string() })
            .collect(),
    })
}

#[test]
fn indent_repr_strings() {
    assert_eq!(Indent::Null.repr(), "   ");
    assert_eq!(Indent::Line.repr(), "\u{2502}  ");
    assert_eq!(Indent::Fork.repr(), "\u{251c}\u{2500} ");
    assert_eq!(Indent::Turn.repr(), "\u{2514}\u{2500} ");
}

#[test]
fn event_line_format() {
    let tree = event(LogLevel::Info, Some("manager"), "loaded", vec![("count", "3")]);
    let out = CleanFormatter.fmt(&tree);
    let expected = format!(
        "\x1b[1;32mINFO  {RESET} \x1b[2;37mmanager:{RESET} loaded | count: 3\n"
    );
    assert_eq!(out, expected);
}

#[test]
fn level_labels_and_colors() {
    let cases = [
        (LogLevel::Trace, "\x1b[1;35mTRACE "),
        (LogLevel::Debug, "\x1b[1;34mDEBUG "),
        (LogLevel::Warn, "\x1b[1;38;2;252;234;160mWARN  "),
        (LogLevel::Error, "\x1b[1;31mERROR "),
    ];
    for (level, label) in cases {
        let tree = LogTree::Event(LogEvent { level, tag_prefix: None, message: None, fields: vec![] });
        assert_eq!(CleanFormatter.fmt(&tree), format!("{label}{RESET} \n"));
    }
}

#[test]
fn span_tree_draws_edges() {
    let tree = LogTree::Span(LogSpan {
        level: LogLevel::Debug,
        name: "build".to_string(),
        duration: "1.50ms".to_string(),
        base_share: Some("20.00".to_string()),
        total_share: "100.00".to_string(),
        fields: vec![],
        nodes: vec![
            event(LogLevel::Debug, None, "first", vec![]),
            LogTree::Span(LogSpan {
                level: LogLevel::Debug,
                name: "inner".to_string(),
                duration: "800µs".to_string(),
                base_share: None,
                total_share: "53.33".to_string(),
                fields: vec![LogField { key: "k".to_string(), value: "v".to_string() }],
                nodes: vec![event(LogLevel::Warn, None, "deep", vec![])],
            }),
        ],
    });
    let out = CleanFormatter.fmt(&tree);
    let dbg = format!("\x1b[1;34mDEBUG {RESET}");
    let warn = format!("\x1b[1;38;2;252;234;160mWARN  {RESET}");
    let edge = |s: &str| format!("\t{DIM_CYAN}{s}{RESET}");
    let expected = [
        format!("{dbg} \x1b[36mbuild{RESET} \x1b[33m[ 1.50ms | 20.00% / 100.00% ]{RESET}\n"),
        format!("{dbg} {}first\n", edge("\u{251c}\u{2500} ")),
        format!(
            "{dbg} {}\x1b[36minner{RESET} \x1b[33m[ 800µs | 53.33% ]{RESET} | k: v\n",
            edge("\u{2514}\u{2500} ")
        ),
        format!("{warn} {}{}deep\n", edge("   "), edge("\u{2514}\u{2500} ")),
    ]
    .concat();
    assert_eq!(out, expected);
}

fn span(name: &str, nodes: Vec<LogTree>) -> LogTree {
    LogTree::Span(LogSpan {
        level: LogLevel::Trace,
        name: name.to_string(),
        duration: "2ms".to_string(),
        base_share: Some("10.00".to_string()),
        total_share: "100.00".to_string(),
        fields: vec![LogField { key: "id".to_string(), value: "7".to_string() }],
        nodes,
    })
}

#[test]
fn one_line_per_record_in_nested_tree() {
    let tree = span(
        "root",
        vec![
            event(LogLevel::Info, Some("tag"), "a", vec![("x", "1")]),
            span("mid", vec![event(LogLevel::Error, None, "b", vec![]), span("leaf", vec![])]),
            event(LogLevel::Warn, None, "c", vec![]),
        ],
    );
    let out = CleanFormatter.fmt(&tree);
    assert_eq!(out.matches('\n').count(), 6);
    assert!(out.ends_with('\n'));
    assert_eq!(out.lines().count(), 6);
}

#[test]
fn dimmed_cyan_and_rgb_prefixes() {
    let tree = event(LogLevel::Warn, None, "w", vec![]);
    let out = CleanFormatter.fmt(&tree);
    assert!(out.starts_with("\x1b[1;38;2;252;234;160m"));
    let mut indent = vec![Indent::Fork];
    let mut w = String::new();
    CleanFormatter::format_tree(&event(LogLevel::Info, None, "i", vec![]), &mut indent, &mut w);
    assert!(w.contains("\t\x1b[2;36m\u{251c}\u{2500} \x1b[0m"));
}

#[test]
fn format_tree_continues_the_parent_edge() {
    let tree = LogTree::Span(LogSpan {
        level: LogLevel::Info,
        name: "s".to_string(),
        duration: "1s".to_string(),
        base_share: None,
        total_share: "1.00".to_string(),
        fields: vec![],
        nodes: vec![event(LogLevel::Info, None, "e", vec![])],
    });
    let mut indent = vec![Indent::Turn, Indent::Fork];
    let mut w = String::new();
    CleanFormatter::format_tree(&tree, &mut indent, &mut w);
    assert_eq!(indent, vec![Indent::Turn, Indent::Line]);
    assert!(w.ends_with(&format!(
        "{}{}{}e\n",
        format!("\t{DIM_CYAN}\u{2514}\u{2500} {RESET}"),
        format!("\t{DIM_CYAN}\u{2502}  {RESET}"),
        format!("\t{DIM_CYAN}\u{2514}\u{2500} {RESET}")
    )));
}

#[test]
fn console_toggle_alternates() {
    let mut s = ConsoleState::new();
    assert_eq!(toggle(&mut s), ConsoleAction::Spawn);
    assert!(s.visible);
    assert_eq!(toggle(&mut s), ConsoleAction::Kill);
    assert!(!s.visible);
}

#[test]
fn console_toggle_after_failed_spawn_spawns_again() {
    let mut s = ConsoleState::new();
    assert_eq!(toggle(&mut s), ConsoleAction::Spawn);
    s.spawn_failed();
    assert!(!s.visible);
    assert_eq!(toggle(&mut s), ConsoleAction::Spawn);
}

#[test]
fn console_toggle_does_nothing_in_cli_mode() {
    let mut s = ConsoleState::new();
    s.enter_debug_cli_mode();
    assert_eq!(toggle(&mut s), ConsoleAction::Nothing);
    assert!(!s.visible);
}
