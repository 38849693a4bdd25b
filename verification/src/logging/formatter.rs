//! Tree-shaped rendering of log records: every event and span becomes one
//! line, led by a colored level and the tree edges that connect it to its
//! parent span.

use vstd::prelude::*;
use crate::text::{decimal, digit_char, push_char};
use nu_ansi_term::Color as C;

verus! {

broadcast use vstd::string::group_string_axioms;

/// Severity of a log record.
#[derive(Clone, Copy, Debug, PartialEq, Eq, Structural)]
pub enum LogLevel {
    Trace,
    Debug,
    Info,
    Warn,
    Error,
}

/// Terminal colors used by the renderer.
#[derive(Clone, Copy, Debug, PartialEq, Eq, Structural)]
pub enum AnsiColor {
    Purple,
    Blue,
    Green,
    Red,
    White,
    Cyan,
    Yellow,
    Rgb(u8, u8, u8),
}

/// A foreground color, optionally bold or dimmed.
#[derive(Clone, Copy, Debug, PartialEq, Eq, Structural)]
pub struct AnsiStyle {
    pub color: AnsiColor,
    pub bold: bool,
    pub dimmed: bool,
}

/// The select-graphic-rendition code of a foreground color.
pub open spec fn foreground_code(color: AnsiColor) -> Seq<char> {
    match color {
        AnsiColor::Purple => seq!['3', '5'],
        AnsiColor::Blue => seq!['3', '4'],
        AnsiColor::Green => seq!['3', '2'],
        AnsiColor::Red => seq!['3', '1'],
        AnsiColor::White => seq!['3', '7'],
        AnsiColor::Cyan => seq!['3', '6'],
        AnsiColor::Yellow => seq!['3', '3'],
        AnsiColor::Rgb(r, g, b) => seq!['3', '8', ';', '2', ';'] + decimal(r as nat) + seq![';']
            + decimal(g as nat) + seq![';'] + decimal(b as nat),
    }
}

/// The escape sequence written before text in `style`: `ESC [`, then the
/// codes joined by `;` (`1` when bold, `2` when dimmed, then the foreground
/// code), then `m`.
pub open spec fn ansi_prefix(style: AnsiStyle) -> Seq<char> {
    seq!['\x1b', '['] + (if style.bold {
        seq!['1', ';']
    } else {
        Seq::empty()
    }) + (if style.dimmed {
        seq!['2', ';']
    } else {
        Seq::empty()
    }) + foreground_code(style.color) + seq!['m']
}

/// The escape sequence that resets all styles.
pub open spec fn ansi_reset() -> Seq<char> {
    seq!['\x1b', '[', '0', 'm']
}

/// `nu_ansi_term::Style::prefix` rendered with `to_string`, for a style with
/// the given foreground color and bold/dimmed flags and nothing else.
/// Claimed: the result is [`ansi_prefix`] of the style, as the crate's
/// `write_prefix` and `write_foreground_code` write it (no reset first, no
/// background, the `gnu_legacy` feature off).
#[verifier::external_body]
fn style_prefix(style: AnsiStyle) -> (r: String)
    ensures
        r@ == ansi_prefix(style),
{
    let c = match style.color {
        AnsiColor::Purple => C::Purple, AnsiColor::Blue => C::Blue, AnsiColor::Green => C::Green,
        AnsiColor::Red => C::Red, AnsiColor::White => C::White, AnsiColor::Cyan => C::Cyan,
        AnsiColor::Yellow => C::Yellow, AnsiColor::Rgb(r, g, b) => C::Rgb(r, g, b),
    };
    let st = nu_ansi_term::Style { foreground: Some(c), is_bold: style.bold, is_dimmed: style.dimmed, ..Default::default() };
    st.prefix().to_string()
}

/// `nu_ansi_term::Style::suffix` rendered with `to_string`. Claimed: for a
/// style that has a foreground color (never a plain style) the suffix is the
/// reset sequence `ESC [ 0 m`, as the crate's source writes it.
#[verifier::external_body]
fn style_suffix(style: AnsiStyle) -> (r: String)
    ensures
        r@ == ansi_reset(),
{
    let c = match style.color {
        AnsiColor::Purple => C::Purple, AnsiColor::Blue => C::Blue, AnsiColor::Green => C::Green,
        AnsiColor::Red => C::Red, AnsiColor::White => C::White, AnsiColor::Cyan => C::Cyan,
        AnsiColor::Yellow => C::Yellow, AnsiColor::Rgb(r, g, b) => C::Rgb(r, g, b),
    };
    let st = nu_ansi_term::Style { foreground: Some(c), is_bold: style.bold, is_dimmed: style.dimmed, ..Default::default() };
    st.suffix().to_string()
}

/// One edge segment drawn left of a record, per level of nesting.
#[derive(Clone, Copy, Debug, PartialEq, Eq, Structural)]
pub enum Indent {
    Null,
    Line,
    Fork,
    Turn,
}

impl Indent {
    /// The three characters drawn for this edge.
    pub open spec fn text(self) -> Seq<char> {
        match self {
            Indent::Null => seq![' ', ' ', ' '],
            Indent::Line => seq!['\u{2502}', ' ', ' '],
            Indent::Fork => seq!['\u{251c}', '\u{2500}', ' '],
            Indent::Turn => seq!['\u{2514}', '\u{2500}', ' '],
        }
    }

    /// The three characters drawn for this edge.
    pub fn repr(&self) -> (r: &'static str)
        ensures
            r@ == self.text(),
    {
        match self {
            Indent::Null => {
                proof {
                    reveal_strlit("   ");
                }
                "   "
            },
            Indent::Line => {
                proof {
                    reveal_strlit("\u{2502}  ");
                }
                "\u{2502}  "
            },
            Indent::Fork => {
                proof {
                    reveal_strlit("\u{251c}\u{2500} ");
                }
                "\u{251c}\u{2500} "
            },
            Indent::Turn => {
                proof {
                    reveal_strlit("\u{2514}\u{2500} ");
                }
                "\u{2514}\u{2500} "
            },
        }
    }
}


/// A `key: value` pair attached to a record.
pub struct LogField {
    pub key: String,
    pub value: String,
}

/// A log event, a leaf of the record tree.
pub struct LogEvent {
    pub level: LogLevel,
    /// Short module tag shown before the message, if any.
    pub tag_prefix: Option<String>,
    pub message: Option<String>,
    pub fields: Vec<LogField>,
}

/// A span with its timing already rendered as text and the records
/// nested in it.
pub struct LogSpan {
    pub level: LogLevel,
    pub name: String,
    /// Total duration, e.g. `12.3ms`.
    pub duration: String,
    /// Share of the root span spent in this span itself, e.g. `41.20`;
    /// present only when the span has nested time.
    pub base_share: Option<String>,
    /// Share of the root span spent in this span and its children.
    pub total_share: String,
    pub fields: Vec<LogField>,
    pub nodes: Vec<LogTree>,
}

/// A record tree: an event, or a span with nested records.
pub enum LogTree {
    Event(LogEvent),
    Span(LogSpan),
}

/// Renders record trees line by line.
pub struct CleanFormatter;

/// The name a level is printed with.
pub open spec fn level_name(level: LogLevel) -> Seq<char> {
    match level {
        LogLevel::Trace => seq!['T', 'R', 'A', 'C', 'E'],
        LogLevel::Debug => seq!['D', 'E', 'B', 'U', 'G'],
        LogLevel::Info => seq!['I', 'N', 'F', 'O'],
        LogLevel::Warn => seq!['W', 'A', 'R', 'N'],
        LogLevel::Error => seq!['E', 'R', 'R', 'O', 'R'],
    }
}

/// `s` padded with spaces on the right to at least `width` characters.
pub open spec fn pad_right(s: Seq<char>, width: nat) -> Seq<char> {
    if s.len() >= width {
        s
    } else {
        s + Seq::new((width - s.len()) as nat, |i: int| ' ')
    }
}

/// The bold color a level is printed in.
pub open spec fn level_style(level: LogLevel) -> AnsiStyle {
    let color = match level {
        LogLevel::Trace => AnsiColor::Purple,
        LogLevel::Debug => AnsiColor::Blue,
        LogLevel::Info => AnsiColor::Green,
        LogLevel::Warn => AnsiColor::Rgb(252, 234, 160),
        LogLevel::Error => AnsiColor::Red,
    };
    AnsiStyle { color, bold: true, dimmed: false }
}

/// The colored, six-column level label that starts every line.
pub open spec fn level_label(level: LogLevel) -> Seq<char> {
    ansi_prefix(level_style(level)) + pad_right(level_name(level), 6) + ansi_reset()
}

pub open spec fn dim_cyan() -> AnsiStyle {
    AnsiStyle { color: AnsiColor::Cyan, bold: false, dimmed: true }
}

pub open spec fn dim_white() -> AnsiStyle {
    AnsiStyle { color: AnsiColor::White, bold: false, dimmed: true }
}

pub open spec fn plain(color: AnsiColor) -> AnsiStyle {
    AnsiStyle { color, bold: false, dimmed: false }
}

/// The edges drawn for an indentation stack: a tab and the dimmed edge per
/// level.
pub open spec fn indent_text(indent: Seq<Indent>) -> Seq<char>
    decreases indent.len(),
{
    if indent.len() == 0 {
        Seq::empty()
    } else {
        indent_text(indent.drop_last()) + seq!['\t'] + ansi_prefix(dim_cyan()) + indent.last().text()
            + ansi_reset()
    }
}

/// ` | key: value` for each field, in order.
pub open spec fn fields_text(fields: Seq<LogField>) -> Seq<char>
    decreases fields.len(),
{
    if fields.len() == 0 {
        Seq::empty()
    } else {
        fields_text(fields.drop_last()) + " | "@ + fields.last().key@ + ": "@ + fields.last().value@
    }
}

/// The line of an event.
pub open spec fn event_line(e: LogEvent, indent: Seq<Indent>) -> Seq<char> {
    level_label(e.level) + seq![' '] + indent_text(indent) + match e.tag_prefix {
        Some(p) => ansi_prefix(dim_white()) + p@ + seq![':'] + ansi_reset() + seq![' '],
        None => Seq::empty(),
    } + match e.message {
        Some(m) => m@,
        None => Seq::empty(),
    } + fields_text(e.fields@) + seq!['\n']
}

/// The header line of a span.
pub open spec fn span_line(s: LogSpan, indent: Seq<Indent>) -> Seq<char> {
    level_label(s.level) + seq![' '] + indent_text(indent) + ansi_prefix(plain(AnsiColor::Cyan))
        + s.name@ + ansi_reset() + seq![' '] + ansi_prefix(plain(AnsiColor::Yellow)) + "[ "@
        + s.duration@ + " | "@ + match s.base_share {
        Some(b) => b@ + "% / "@,
        None => Seq::empty(),
    } + s.total_share@ + "% ]"@ + ansi_reset() + fields_text(s.fields@) + seq!['\n']
}

/// How the edge of a span's own line continues below it once its children
/// are drawn: a fork becomes a vertical line, anything else a blank.
pub open spec fn continued(edge: Indent) -> Indent {
    match edge {
        Indent::Fork => Indent::Line,
        _ => Indent::Null,
    }
}

/// The indentation stack after its last edge is continued.
pub open spec fn continue_last(indent: Seq<Indent>) -> Seq<Indent> {
    if indent.len() == 0 {
        indent
    } else {
        indent.update(indent.len() - 1, continued(indent.last()))
    }
}

/// The edge drawn for child `i` of `n`: a fork, or a turn for the last one.
pub open spec fn child_edge(i: int, n: int) -> Indent {
    if i + 1 < n {
        Indent::Fork
    } else {
        Indent::Turn
    }
}

/// The text of a record tree drawn under the indentation stack `indent`.
pub open spec fn render(tree: LogTree, indent: Seq<Indent>) -> Seq<char>
    decreases tree, 0nat,
{
    match tree {
        LogTree::Event(e) => event_line(e, indent),
        LogTree::Span(s) => span_line(s, indent) + render_nodes(
            s.nodes@,
            continue_last(indent),
            s.nodes@.len(),
        ),
    }
}

/// The text of the first `k` of `nodes`, each drawn under `base` extended by
/// its edge.
pub open spec fn render_nodes(nodes: Seq<LogTree>, base: Seq<Indent>, k: nat) -> Seq<char>
    decreases nodes, k,
{
    if k == 0 || k > nodes.len() {
        Seq::empty()
    } else {
        render_nodes(nodes, base, (k - 1) as nat) + render(
            nodes[k - 1],
            base.push(child_edge(k - 1, nodes.len() as int)),
        )
    }
}

/// The indentation stack left behind after drawing `tree`.
pub open spec fn indent_after(tree: LogTree, indent: Seq<Indent>) -> Seq<Indent> {
    match tree {
        LogTree::Span(s) => if s.nodes@.len() > 0 {
            continue_last(indent)
        } else {
            indent
        },
        LogTree::Event(_) => indent,
    }
}


/// Appends `text` to `w`.
fn put(w: &mut String, text: &str)
    ensures
        final(w)@ == old(w)@ + text@,
{
    w.append(text);
}

/// Appends the colored level label.
fn write_level(w: &mut String, level: LogLevel)
    ensures
        final(w)@ == old(w)@ + level_label(level),
{
    let color = match level {
        LogLevel::Trace => AnsiColor::Purple,
        LogLevel::Debug => AnsiColor::Blue,
        LogLevel::Info => AnsiColor::Green,
        LogLevel::Warn => AnsiColor::Rgb(252, 234, 160),
        LogLevel::Error => AnsiColor::Red,
    };
    let style = AnsiStyle { color, bold: true, dimmed: false };
    let prefix = style_prefix(style);
    put(w, prefix.as_str());
    let name: &str = match level {
        LogLevel::Trace => "TRACE ",
        LogLevel::Debug => "DEBUG ",
        LogLevel::Info => "INFO  ",
        LogLevel::Warn => "WARN  ",
        LogLevel::Error => "ERROR ",
    };
    proof {
        reveal_strlit("TRACE ");
        reveal_strlit("DEBUG ");
        reveal_strlit("INFO  ");
        reveal_strlit("WARN  ");
        reveal_strlit("ERROR ");
        assert(name@ =~= pad_right(level_name(level), 6));
    }
    put(w, name);
    let suffix = style_suffix(style);
    put(w, suffix.as_str());
    assert(w@ =~= old(w)@ + level_label(level));
}

impl CleanFormatter {
    /// Renders `tree` as text, one line per record.
    pub fn fmt(&self, tree: &LogTree) -> (r: String)
        ensures
            r@ == render(*tree, Seq::empty()),
    {
        let mut w = String::new();
        let mut indent: Vec<Indent> = Vec::new();
        Self::format_tree(tree, &mut indent, &mut w);
        assert(w@ =~= render(*tree, Seq::empty()));
        w
    }

    /// Appends the edges of the indentation stack.
    pub fn format_indent(indent: &Vec<Indent>, w: &mut String)
        ensures
            final(w)@ == old(w)@ + indent_text(indent@),
    {
        let style = AnsiStyle { color: AnsiColor::Cyan, bold: false, dimmed: true };
        let mut i: usize = 0;
        while i < indent.len()
            invariant
                i <= indent@.len(),
                style == dim_cyan(),
                w@ == old(w)@ + indent_text(indent@.take(i as int)),
            decreases indent.len() - i,
        {
            let ghost before = w@;
            push_char(w, '\t');
            let prefix = style_prefix(style);
            put(w, prefix.as_str());
            put(w, indent[i].repr());
            let suffix = style_suffix(style);
            put(w, suffix.as_str());
            assert(indent@.take(i + 1).drop_last() =~= indent@.take(i as int));
            i = i + 1;
            assert(w@ =~= old(w)@ + indent_text(indent@.take(i as int)));
        }
        assert(indent@.take(i as int) =~= indent@);
    }

    /// Appends ` | key: value` for each field.
    fn format_fields(fields: &Vec<LogField>, w: &mut String)
        ensures
            final(w)@ == old(w)@ + fields_text(fields@),
    {
        let mut i: usize = 0;
        while i < fields.len()
            invariant
                i <= fields@.len(),
                w@ == old(w)@ + fields_text(fields@.take(i as int)),
            decreases fields.len() - i,
        {
            put(w, " | ");
            put(w, fields[i].key.as_str());
            put(w, ": ");
            put(w, fields[i].value.as_str());
            assert(fields@.take(i + 1).drop_last() =~= fields@.take(i as int));
            i = i + 1;
            assert(w@ =~= old(w)@ + fields_text(fields@.take(i as int)));
        }
        assert(fields@.take(i as int) =~= fields@);
    }

    fn format_event(e: &LogEvent, indent: &Vec<Indent>, w: &mut String)
        ensures
            final(w)@ == old(w)@ + event_line(*e, indent@),
    {
        write_level(w, e.level);
        push_char(w, ' ');
        Self::format_indent(indent, w);
        match &e.tag_prefix {
            Some(p) => {
                let style = AnsiStyle { color: AnsiColor::White, bold: false, dimmed: true };
                let prefix = style_prefix(style);
                put(w, prefix.as_str());
                put(w, p.as_str());
                push_char(w, ':');
                let suffix = style_suffix(style);
                put(w, suffix.as_str());
                push_char(w, ' ');
            },
            None => {},
        }
        match &e.message {
            Some(m) => put(w, m.as_str()),
            None => {},
        }
        Self::format_fields(&e.fields, w);
        push_char(w, '\n');
        assert(w@ =~= old(w)@ + event_line(*e, indent@));
    }

    fn format_span_line(s: &LogSpan, indent: &Vec<Indent>, w: &mut String)
        ensures
            final(w)@ == old(w)@ + span_line(*s, indent@),
    {
        write_level(w, s.level);
        push_char(w, ' ');
        Self::format_indent(indent, w);
        let cyan = AnsiStyle { color: AnsiColor::Cyan, bold: false, dimmed: false };
        let yellow = AnsiStyle { color: AnsiColor::Yellow, bold: false, dimmed: false };
        let cp = style_prefix(cyan);
        put(w, cp.as_str());
        put(w, s.name.as_str());
        let cs = style_suffix(cyan);
        put(w, cs.as_str());
        push_char(w, ' ');
        let yp = style_prefix(yellow);
        put(w, yp.as_str());
        put(w, "[ ");
        put(w, s.duration.as_str());
        put(w, " | ");
        match &s.base_share {
            Some(b) => {
                put(w, b.as_str());
                put(w, "% / ");
            },
            None => {},
        }
        put(w, s.total_share.as_str());
        put(w, "% ]");
        let ys = style_suffix(yellow);
        put(w, ys.as_str());
        Self::format_fields(&s.fields, w);
        push_char(w, '\n');
        assert(w@ =~= old(w)@ + span_line(*s, indent@));
    }

    /// Appends the text of `tree` drawn under the indentation stack
    /// `indent`; the stack's last edge is left continued when `tree` is a
    /// span with children.
    pub fn format_tree(tree: &LogTree, indent: &mut Vec<Indent>, w: &mut String)
        ensures
            final(w)@ == old(w)@ + render(*tree, old(indent)@),
            final(indent)@ == indent_after(*tree, old(indent)@),
        decreases tree,
    {
        match tree {
            LogTree::Event(e) => {
                Self::format_event(e, indent, w);
            },
            LogTree::Span(s) => {
                Self::format_span_line(s, indent, w);
                let n = s.nodes.len();
                if n > 0 {
                    let ghost base = continue_last(old(indent)@);
                    let ghost header = w@;
                    let len = indent.len();
                    if len > 0 {
                        let edge = match indent[len - 1] {
                            Indent::Fork => Indent::Line,
                            _ => Indent::Null,
                        };
                        indent.set(len - 1, edge);
                    }
                    assert(indent@ =~= base);
                    indent.push(Indent::Fork);
                    let mut i: usize = 0;
                    while i < n
                        invariant
                            n == s.nodes@.len(),
                            *tree == LogTree::Span(*s),
                            i <= n,
                            indent@.len() == base.len() + 1,
                            indent@.take(base.len() as int) =~= base,
                            w@ == header + render_nodes(s.nodes@, base, i as nat),
                        decreases n - i,
                    {
                        let last = indent.len() - 1;
                        let edge = if i + 1 < n {
                            Indent::Fork
                        } else {
                            Indent::Turn
                        };
                        indent.set(last, edge);
                        assert(indent@ =~= base.push(child_edge(i as int, n as int)));
                        proof {
                            assert(tree->Span_0 == *s);
                            assert(decreases_to!(*tree => tree->Span_0));
                            assert(decreases_to!(*s => s.nodes));
                            assert(decreases_to!(s.nodes => s.nodes@));
                            assert(decreases_to!(s.nodes@ => s.nodes@[i as int]));
                        }
                        Self::format_tree(&s.nodes[i], indent, w);
                        proof {
                            let child = s.nodes@[i as int];
                            let pushed = base.push(child_edge(i as int, n as int));
                            assert(indent@ == indent_after(child, pushed));
                            assert(indent_after(child, pushed).take(base.len() as int) =~= base);
                        }
                        i = i + 1;
                    }
                    indent.pop();
                    assert(indent@ =~= base);
                }
            },
        }
    }
}

/// Whether `s` holds no line break.
pub open spec fn no_newline(s: Seq<char>) -> bool {
    forall|i: int| 0 <= i < s.len() ==> s[i] != '\n'
}

/// The number of line breaks in `s`.
pub open spec fn count_newlines(s: Seq<char>) -> nat
    decreases s.len(),
{
    if s.len() == 0 {
        0
    } else {
        count_newlines(s.drop_last()) + if s.last() == '\n' {
            1nat
        } else {
            0nat
        }
    }
}

/// No key or value of the fields holds a line break.
pub open spec fn fields_single_line(fields: Seq<LogField>) -> bool {
    forall|i: int|
        0 <= i < fields.len() ==> no_newline(#[trigger] fields[i].key@) && no_newline(
            fields[i].value@,
        )
}

/// No text of the tree (messages, tags, names, timings, fields) holds a
/// line break.
pub open spec fn tree_single_line(tree: LogTree) -> bool
    decreases tree, 0nat,
{
    match tree {
        LogTree::Event(e) => {
            &&& match e.tag_prefix {
                Some(p) => no_newline(p@),
                None => true,
            }
            &&& match e.message {
                Some(m) => no_newline(m@),
                None => true,
            }
            &&& fields_single_line(e.fields@)
        },
        LogTree::Span(s) => {
            &&& no_newline(s.name@)
            &&& no_newline(s.duration@)
            &&& match s.base_share {
                Some(b) => no_newline(b@),
                None => true,
            }
            &&& no_newline(s.total_share@)
            &&& fields_single_line(s.fields@)
            &&& nodes_single_line(s.nodes@, s.nodes@.len())
        },
    }
}

/// [`tree_single_line`] holds of each of the first `k` of `nodes`.
pub open spec fn nodes_single_line(nodes: Seq<LogTree>, k: nat) -> bool
    decreases nodes, k,
{
    if k == 0 || k > nodes.len() {
        true
    } else {
        nodes_single_line(nodes, (k - 1) as nat) && tree_single_line(nodes[k - 1])
    }
}

/// The number of records in a tree: the tree itself and, for a span, all
/// records nested in it.
pub open spec fn record_count(tree: LogTree) -> nat
    decreases tree, 0nat,
{
    match tree {
        LogTree::Event(_) => 1,
        LogTree::Span(s) => 1 + records_in(s.nodes@, s.nodes@.len()),
    }
}

/// The number of records in the first `k` of `nodes`.
pub open spec fn records_in(nodes: Seq<LogTree>, k: nat) -> nat
    decreases nodes, k,
{
    if k == 0 || k > nodes.len() {
        0
    } else {
        records_in(nodes, (k - 1) as nat) + record_count(nodes[k - 1])
    }
}

proof fn lemma_count_concat(a: Seq<char>, b: Seq<char>)
    ensures
        count_newlines(a + b) == count_newlines(a) + count_newlines(b),
    decreases b.len(),
{
    if b.len() == 0 {
        assert(a + b =~= a);
    } else {
        assert((a + b).drop_last() =~= a + b.drop_last());
        lemma_count_concat(a, b.drop_last());
    }
}

proof fn lemma_count_no_newline(s: Seq<char>)
    requires
        no_newline(s),
    ensures
        count_newlines(s) == 0,
    decreases s.len(),
{
    if s.len() > 0 {
        lemma_count_no_newline(s.drop_last());
    }
}

proof fn lemma_decimal_no_newline(n: nat)
    ensures
        no_newline(decimal(n)),
    decreases n,
{
    let d = n % 10;
    assert(digit_char(d) as int == 48 + d);
    if n >= 10 {
        lemma_decimal_no_newline(n / 10);
    }
}

proof fn lemma_prefix_no_newline(style: AnsiStyle)
    ensures
        no_newline(ansi_prefix(style)),
{
    match style.color {
        AnsiColor::Rgb(r, g, b) => {
            lemma_decimal_no_newline(r as nat);
            lemma_decimal_no_newline(g as nat);
            lemma_decimal_no_newline(b as nat);
        },
        _ => {},
    }
}

proof fn lemma_indent_no_newline(indent: Seq<Indent>)
    ensures
        no_newline(indent_text(indent)),
    decreases indent.len(),
{
    if indent.len() > 0 {
        lemma_indent_no_newline(indent.drop_last());
        lemma_prefix_no_newline(dim_cyan());
    }
}

proof fn lemma_fields_no_newline(fields: Seq<LogField>)
    requires
        fields_single_line(fields),
    ensures
        no_newline(fields_text(fields)),
    decreases fields.len(),
{
    if fields.len() > 0 {
        assert(fields_single_line(fields.drop_last()));
        lemma_fields_no_newline(fields.drop_last());
        assert(no_newline(fields[fields.len() - 1].key@));
        reveal_strlit(" | ");
        reveal_strlit(": ");
    }
}

proof fn lemma_label_no_newline(level: LogLevel)
    ensures
        no_newline(level_label(level)),
{
    lemma_prefix_no_newline(level_style(level));
}

/// An event whose texts hold no line break renders as one line.
proof fn lemma_event_line(e: LogEvent, indent: Seq<Indent>)
    requires
        tree_single_line(LogTree::Event(e)),
    ensures
        count_newlines(event_line(e, indent)) == 1,
        event_line(e, indent).last() == '\n',
{
    let line = event_line(e, indent);
    let body = line.drop_last();
    lemma_label_no_newline(e.level);
    lemma_indent_no_newline(indent);
    lemma_prefix_no_newline(dim_white());
    lemma_fields_no_newline(e.fields@);
    assert(no_newline(body));
    lemma_count_no_newline(body);
}

/// A span header whose texts hold no line break is one line.
proof fn lemma_span_line(s: LogSpan, indent: Seq<Indent>)
    requires
        tree_single_line(LogTree::Span(s)),
    ensures
        count_newlines(span_line(s, indent)) == 1,
        span_line(s, indent).last() == '\n',
{
    let line = span_line(s, indent);
    let body = line.drop_last();
    lemma_label_no_newline(s.level);
    lemma_indent_no_newline(indent);
    lemma_prefix_no_newline(plain(AnsiColor::Cyan));
    lemma_prefix_no_newline(plain(AnsiColor::Yellow));
    lemma_fields_no_newline(s.fields@);
    reveal_strlit("[ ");
    reveal_strlit(" | ");
    reveal_strlit("% / ");
    reveal_strlit("% ]");
    assert(no_newline(body));
    lemma_count_no_newline(body);
}

/// Rendering a record tree writes exactly one line per record: the text
/// holds one line break for each record of the tree and ends with one,
/// whatever the indentation it is drawn under, provided no text of the tree
/// holds a line break itself.
pub proof fn one_line_per_record(tree: LogTree, indent: Seq<Indent>)
    requires
        tree_single_line(tree),
    ensures
        count_newlines(render(tree, indent)) == record_count(tree),
        render(tree, indent).len() > 0,
        render(tree, indent).last() == '\n',
    decreases tree, 0nat,
{
    match tree {
        LogTree::Event(e) => {
            lemma_event_line(e, indent);
        },
        LogTree::Span(s) => {
            lemma_span_line(s, indent);
            let base = continue_last(indent);
            let nodes = s.nodes@;
            lemma_nodes_lines(nodes, base, nodes.len());
            let head = span_line(s, indent);
            let rest = render_nodes(nodes, base, nodes.len());
            lemma_count_concat(head, rest);
            if nodes.len() > 0 {
                assert((head + rest).last() == rest.last());
            } else {
                assert(head + rest =~= head);
            }
        },
    }
}

/// The first `k` of `nodes` render to one line per record, ending with a
/// line break when `k > 0`.
proof fn lemma_nodes_lines(nodes: Seq<LogTree>, base: Seq<Indent>, k: nat)
    requires
        nodes_single_line(nodes, k),
        k <= nodes.len(),
    ensures
        count_newlines(render_nodes(nodes, base, k)) == records_in(nodes, k),
        k > 0 ==> render_nodes(nodes, base, k).len() > 0 && render_nodes(nodes, base, k).last()
            == '\n',
    decreases nodes, k,
{
    if k > 0 {
        lemma_nodes_lines(nodes, base, (k - 1) as nat);
        let edge = child_edge(k - 1, nodes.len() as int);
        one_line_per_record(nodes[k - 1], base.push(edge));
        lemma_count_concat(
            render_nodes(nodes, base, (k - 1) as nat),
            render(nodes[k - 1], base.push(edge)),
        );
    }
}

/// How a span is drawn: its own line, then its children in order, each
/// under the span's stack with its last edge continued (a fork goes on as a
/// vertical line, anything else as a blank) and one more edge pushed: a
/// fork for every child but the last, a turn for the last.
pub proof fn span_children_layout(s: LogSpan, indent: Seq<Indent>)
    ensures
        ({
            let nodes = s.nodes@;
            let n = nodes.len();
            let base = continue_last(indent);
            &&& render(LogTree::Span(s), indent) == span_line(s, indent) + render_nodes(nodes, base, n)
            &&& base.len() == indent.len()
            &&& forall|i: int| 0 <= i < indent.len() - 1 ==> #[trigger] base[i] == indent[i]
            &&& indent.len() > 0 ==> base[indent.len() - 1] == if indent[indent.len() - 1]
                == Indent::Fork {
                Indent::Line
            } else {
                Indent::Null
            }
            &&& render_nodes(nodes, base, 0) == Seq::<char>::empty()
            &&& forall|k: int|
                0 < k <= n ==> #[trigger] render_nodes(nodes, base, k as nat) == render_nodes(
                    nodes,
                    base,
                    (k - 1) as nat,
                ) + render(
                    nodes[k - 1],
                    base.push(
                        if k < n {
                            Indent::Fork
                        } else {
                            Indent::Turn
                        },
                    ),
                )
        }),
{
}

} // verus!
