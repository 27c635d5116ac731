//! Rendering: from a diagnostic and the registry to the text that the user
//! reads, with the offending source, its gutter and its underline.

use vstd::prelude::*;
use crate::errors::{CompileErr, CompileErrV, Diagnostic, DiagnosticV, Help, HelpV};
use crate::files::{
    is_line_start,
    last_line,
    lemma_line_start_unique,
    lemma_newlines_monotone,
    lemma_newlines_past_end,
    line_text,
    FileError,
    FileManager,
};
use crate::span::{lemma_span_lines_first, span_lines, SrcScope};
use crate::styling::{
    Fmt,
    BOLD,
    LIGHT_BLUE,
    LIGHT_CYAN,
    LIGHT_WHITE,
    PLAIN,
    PURPLE,
    RED,
    WHITE,
    YELLOW,
};
use crate::text::{decimal, push_decimal, repeat_char, repeated};

verus! {

/// One line of a rendered diagnostic.
#[derive(Debug)]
pub enum DebugLine {
    /// Plain text, without a gutter.
    Text(String),
    /// A line of source behind its line number.
    Source { line: usize, source: String, color: Fmt },
    /// An underline below a line of source, with a message behind it.
    Underline { ch: char, offset: usize, len: usize, msg: String, color: Fmt },
    /// A line of source that belongs to a span of several lines.
    GroupedSource { line: usize, source: String, color: Fmt, group_color: Fmt },
    /// The underline that ends a span of several lines.
    GroupedUnderline { ch: char, offset: usize, len: usize, msg: String, color: Fmt, group_color: Fmt },
    /// The place of the span: path, line and column.
    File { path: String, line: usize, col: usize },
    /// Stands for lines of source that are left out.
    SourceSkip,
    /// An empty line behind the gutter.
    Blank,
    /// An empty line without a gutter.
    Empty,
}

/// What a [`DebugLine`] holds.
pub ghost enum DebugLineV {
    Text(Seq<char>),
    Source { line: usize, source: Seq<char>, color: Fmt },
    Underline { ch: char, offset: usize, len: usize, msg: Seq<char>, color: Fmt },
    GroupedSource { line: usize, source: Seq<char>, color: Fmt, group_color: Fmt },
    GroupedUnderline {
        ch: char,
        offset: usize,
        len: usize,
        msg: Seq<char>,
        color: Fmt,
        group_color: Fmt,
    },
    File { path: Seq<char>, line: usize, col: usize },
    SourceSkip,
    Blank,
    Empty,
}

impl View for DebugLine {
    type V = DebugLineV;

    open spec fn view(&self) -> DebugLineV {
        match *self {
            DebugLine::Text(t) => DebugLineV::Text(t@),
            DebugLine::Source { line, source, color } => DebugLineV::Source {
                line,
                source: source@,
                color,
            },
            DebugLine::Underline { ch, offset, len, msg, color } => DebugLineV::Underline {
                ch,
                offset,
                len,
                msg: msg@,
                color,
            },
            DebugLine::GroupedSource { line, source, color, group_color } => DebugLineV::GroupedSource {
                line,
                source: source@,
                color,
                group_color,
            },
            DebugLine::GroupedUnderline {
                ch,
                offset,
                len,
                msg,
                color,
                group_color,
            } => DebugLineV::GroupedUnderline { ch, offset, len, msg: msg@, color, group_color },
            DebugLine::File { path, line, col } => DebugLineV::File { path: path@, line, col },
            DebugLine::SourceSkip => DebugLineV::SourceSkip,
            DebugLine::Blank => DebugLineV::Blank,
            DebugLine::Empty => DebugLineV::Empty,
        }
    }
}

/// The text `text` flushed right in a gutter of `gutter_size` characters,
/// bold, with a bar behind it.
pub open spec fn spec_fmt_gutter(text: Seq<char>, gutter_size: nat) -> Seq<char> {
    Fmt::DecorColor(BOLD, WHITE).spec_code() + repeated(' ', (gutter_size - text.len()) as nat)
        + text + " | "@ + Fmt::Reset.spec_code()
}

impl DebugLineV {
    /// What stands in the gutter before the line: the one-based number of a
    /// line of source, nothing before an underline, and no gutter at all
    /// before plain text and the place of the span.
    pub open spec fn spec_gutter(self) -> Option<Seq<char>> {
        match self {
            DebugLineV::Text(_) => None,
            DebugLineV::Source { line, .. } => Some(decimal((line + 1) as nat)),
            DebugLineV::Underline { .. } => Some(Seq::empty()),
            DebugLineV::GroupedSource { line, .. } => Some(decimal((line + 1) as nat)),
            DebugLineV::GroupedUnderline { .. } => Some(Seq::empty()),
            DebugLineV::File { .. } => None,
            DebugLineV::SourceSkip => Some("..."@),
            DebugLineV::Blank => Some(Seq::empty()),
            DebugLineV::Empty => None,
        }
    }

    /// The line behind its gutter. An underline is `offset` blanks, `len`
    /// copies of its character, a blank and the message; a line of a span of
    /// several lines begins with a bar; the place of the span is
    /// `file path:line:column`, both counted from one.
    pub open spec fn spec_fmt(self) -> Seq<char> {
        match self {
            DebugLineV::Text(text) => text,
            DebugLineV::Source { line, source, color } => color.spec_code() + source
                + Fmt::Reset.spec_code(),
            DebugLineV::Underline { ch, offset, len, msg, color } => color.spec_code() + repeated(
                ' ',
                offset as nat,
            ) + repeated(ch, len as nat) + " "@ + msg + Fmt::Reset.spec_code(),
            DebugLineV::GroupedSource { line, source, color, group_color } => group_color.spec_code()
                + "| "@ + color.spec_code() + source + Fmt::Reset.spec_code(),
            DebugLineV::GroupedUnderline {
                ch,
                offset,
                len,
                msg,
                color,
                group_color,
            } => group_color.spec_code() + "| "@ + color.spec_code() + repeated(' ', offset as nat)
                + repeated(ch, len as nat) + " "@ + msg + Fmt::Reset.spec_code(),
            DebugLineV::File { path, line, col } => Fmt::DecorColor(BOLD, LIGHT_BLUE).spec_code()
                + "file "@ + path + ":"@ + decimal((line + 1) as nat) + ":"@ + decimal(
                (col + 1) as nat,
            ) + Fmt::Reset.spec_code(),
            DebugLineV::SourceSkip => Seq::empty(),
            DebugLineV::Blank => Seq::empty(),
            DebugLineV::Empty => Seq::empty(),
        }
    }

    /// The whole line: the gutter, where the line has one, and the line.
    pub open spec fn spec_render(self, gutter_size: nat) -> Seq<char> {
        match self.spec_gutter() {
            Some(gutter) => spec_fmt_gutter(gutter, gutter_size) + self.spec_fmt() + seq!['\n'],
            None => self.spec_fmt() + seq!['\n'],
        }
    }
}

/// The width of the widest gutter among the first `n` lines.
pub open spec fn spec_gutter_size(lines: Seq<DebugLineV>, n: nat) -> nat
    decreases n,
{
    if n == 0 {
        0
    } else {
        let before = spec_gutter_size(lines, (n - 1) as nat);
        match lines[n - 1].spec_gutter() {
            Some(gutter) => if gutter.len() > before {
                gutter.len()
            } else {
                before
            },
            None => before,
        }
    }
}

/// The first `n` lines, each behind a gutter of `gutter_size` characters
/// where it has one, and each ended by a newline.
pub open spec fn spec_render_lines(lines: Seq<DebugLineV>, n: nat, gutter_size: nat) -> Seq<char>
    decreases n,
{
    if n == 0 {
        Seq::empty()
    } else {
        spec_render_lines(lines, (n - 1) as nat, gutter_size) + lines[n - 1].spec_render(gutter_size)
    }
}

/// The lines rendered with a gutter as wide as the widest of them needs.
pub open spec fn spec_fmt_lines(lines: Seq<DebugLineV>) -> Seq<char> {
    spec_render_lines(lines, lines.len(), spec_gutter_size(lines, lines.len()))
}

/// No gutter is wider than the widest.
pub proof fn lemma_gutter_size_bound(lines: Seq<DebugLineV>, n: nat, k: int)
    requires
        0 <= k < n <= lines.len(),
    ensures
        lines[k].spec_gutter() matches Some(gutter) ==> gutter.len() <= spec_gutter_size(lines, n),
    decreases n,
{
    if k < n - 1 {
        lemma_gutter_size_bound(lines, (n - 1) as nat, k);
    }
}

/// What each line of a sequence holds.
pub open spec fn lines_view(v: Seq<DebugLine>) -> Seq<DebugLineV> {
    Seq::new(v.len(), |i: int| v[i]@)
}

impl DebugLine {
    /// The text `text` flushed right in a gutter of `gutter_size` characters.
    pub fn fmt_gutter(text: String, gutter_size: usize) -> (r: String)
        requires
            text@.len() <= gutter_size,
        ensures
            r@ == spec_fmt_gutter(text@, gutter_size as nat),
    {
        let space = gutter_size - text.as_str().unicode_len();
        let mut r = Fmt::DecorColor(BOLD, WHITE).code();
        r.append(repeat_char(' ', space).as_str());
        r.append(text.as_str());
        r.append(" | ");
        r.append(Fmt::Reset.code().as_str());
        r
    }

    /// What stands in the gutter before the line, if it has a gutter.
    pub fn gutter(&self) -> (r: Option<String>)
        ensures
            match self@.spec_gutter() {
                Some(gutter) => r is Some && r->Some_0@ == gutter,
                None => r is None,
            },
    {
        match self {
            DebugLine::Text(_) => None,
            DebugLine::Source { line, .. } => Some(one_based(*line)),
            DebugLine::Underline { .. } => Some(String::new()),
            DebugLine::GroupedSource { line, .. } => Some(one_based(*line)),
            DebugLine::GroupedUnderline { .. } => Some(String::new()),
            DebugLine::File { .. } => None,
            DebugLine::SourceSkip => Some("...".to_owned()),
            DebugLine::Blank => Some(String::new()),
            DebugLine::Empty => None,
        }
    }

    /// The line behind its gutter.
    pub fn fmt(&self) -> (r: String)
        ensures
            r@ == self@.spec_fmt(),
    {
        match self {
            DebugLine::Text(text) => text.clone(),
            DebugLine::Source { line: _, source, color } => {
                let mut r = color.code();
                r.append(source.as_str());
                r.append(Fmt::Reset.code().as_str());
                r
            },
            DebugLine::Underline { ch, offset, len, msg, color } => {
                let mut r = color.code();
                r.append(repeat_char(' ', *offset).as_str());
                r.append(repeat_char(*ch, *len).as_str());
                r.append(" ");
                r.append(msg.as_str());
                r.append(Fmt::Reset.code().as_str());
                r
            },
            DebugLine::GroupedSource { line: _, source, color, group_color } => {
                let mut r = group_color.code();
                r.append("| ");
                r.append(color.code().as_str());
                r.append(source.as_str());
                r.append(Fmt::Reset.code().as_str());
                r
            },
            DebugLine::GroupedUnderline { ch, offset, len, msg, color, group_color } => {
                let mut r = group_color.code();
                r.append("| ");
                r.append(color.code().as_str());
                r.append(repeat_char(' ', *offset).as_str());
                r.append(repeat_char(*ch, *len).as_str());
                r.append(" ");
                r.append(msg.as_str());
                r.append(Fmt::Reset.code().as_str());
                r
            },
            DebugLine::File { path, line, col } => {
                let mut r = Fmt::DecorColor(BOLD, LIGHT_BLUE).code();
                r.append("file ");
                r.append(path.as_str());
                r.append(":");
                r.append(one_based(*line).as_str());
                r.append(":");
                r.append(one_based(*col).as_str());
                r.append(Fmt::Reset.code().as_str());
                r
            },
            DebugLine::SourceSkip => String::new(),
            DebugLine::Blank => String::new(),
            DebugLine::Empty => String::new(),
        }
    }
}

/// The numeral of `n + 1`: a position counted from one.
pub fn one_based(n: usize) -> (r: String)
    ensures
        r@ == decimal((n + 1) as nat),
{
    let mut r = String::new();
    push_decimal(&mut r, n as u128 + 1);
    assert(r@ =~= decimal((n + 1) as nat));
    r
}

/// The lines of a rendered diagnostic.
#[derive(Debug)]
pub struct DebugLines {
    pub lines: Vec<DebugLine>,
}

impl View for DebugLines {
    type V = Seq<DebugLineV>;

    open spec fn view(&self) -> Seq<DebugLineV> {
        lines_view(self.lines@)
    }
}

/// The three lines of a suggested fix: the sentence, the example source
/// behind its line number, and an empty line.
pub open spec fn spec_help_lines(help: HelpV) -> Seq<DebugLineV> {
    seq![
        DebugLineV::Text(
            Fmt::DecorColor(BOLD, PURPLE).spec_code() + "help: "@ + Fmt::DecorColor(
                BOLD,
                LIGHT_WHITE,
            ).spec_code() + help.msg,
        ),
        DebugLineV::Source {
            line: help.line,
            source: help.source,
            color: Fmt::DecorColor(PLAIN, LIGHT_CYAN),
        },
        DebugLineV::Blank,
    ]
}

impl DebugLines {
    /// No line yet.
    pub fn new() -> (r: Self)
        ensures
            r@ == Seq::<DebugLineV>::empty(),
    {
        let r = DebugLines { lines: Vec::new() };
        assert(r@ =~= Seq::<DebugLineV>::empty());
        r
    }

    /// Adds `line` at the end.
    pub fn push_line(&mut self, line: DebugLine)
        ensures
            final(self)@ == old(self)@.push(line@),
    {
        self.lines.push(line);
        assert(self@ =~= old(self)@.push(line@));
    }

    /// Adds the lines of the suggested fix `help` at the end.
    pub fn help(&mut self, help: Help)
        ensures
            final(self)@ == old(self)@ + spec_help_lines(help@),
    {
        let mut text = Fmt::DecorColor(BOLD, PURPLE).code();
        text.append("help: ");
        text.append(Fmt::DecorColor(BOLD, LIGHT_WHITE).code().as_str());
        text.append(help.msg.as_str());
        self.push_line(DebugLine::Text(text));
        self.push_line(
            DebugLine::Source {
                line: help.line,
                source: help.source,
                color: Fmt::DecorColor(PLAIN, LIGHT_CYAN),
            },
        );
        self.push_line(DebugLine::Blank);
        assert(self@ =~= old(self)@ + spec_help_lines(help@));
    }

    /// The width of the widest gutter.
    pub fn gutter_size(&self) -> (r: usize)
        ensures
            r == spec_gutter_size(self@, self@.len()),
    {
        let mut gutter_size: usize = 0;
        let mut i: usize = 0;
        while i < self.lines.len()
            invariant
                i <= self.lines.len(),
                gutter_size == spec_gutter_size(self@, i as nat),
            decreases self.lines.len() - i,
        {
            assert(self@[i as int] == self.lines@[i as int]@);
            match self.lines[i].gutter() {
                Some(gutter) => {
                    let width = gutter.as_str().unicode_len();
                    if width > gutter_size {
                        gutter_size = width;
                    }
                },
                None => {},
            }
            i += 1;
        }
        gutter_size
    }

    /// The lines as one text: each behind the gutter, where it has one, and
    /// ended by a newline.
    pub fn fmt(&self) -> (r: String)
        ensures
            r@ == spec_fmt_lines(self@),
    {
        let gutter_size = self.gutter_size();
        let mut string = String::new();
        let mut i: usize = 0;
        while i < self.lines.len()
            invariant
                i <= self.lines.len(),
                gutter_size == spec_gutter_size(self@, self@.len()),
                string@ == spec_render_lines(self@, i as nat, gutter_size as nat),
            decreases self.lines.len() - i,
        {
            let line = &self.lines[i];
            assert(self@[i as int] == line@);
            let ghost before = string@;
            match line.gutter() {
                Some(gutter) => {
                    proof {
                        lemma_gutter_size_bound(self@, self@.len(), i as int);
                    }
                    string.append(DebugLine::fmt_gutter(gutter, gutter_size).as_str());
                },
                None => {},
            }
            string.append(line.fmt().as_str());
            string.push('\n');
            assert(string@ =~= before + line@.spec_render(gutter_size as nat));
            i += 1;
        }
        string
    }
}

/// Where line `line` of `text` begins.
pub open spec fn line_start(text: Seq<char>, line: nat) -> int {
    choose|p: int| is_line_start(text, line, p)
}

/// How far `to` lies behind `from`; nothing where it does not.
pub open spec fn gap(from: int, to: int) -> usize {
    if to >= from {
        (to - from) as usize
    } else {
        0
    }
}

/// No line of a span lies behind the last line of the text.
pub proof fn lemma_span_lines_bounded(text: Seq<char>, start: int, end: int, k: int)
    requires
        0 <= k < span_lines(text, start, end).len(),
    ensures
        span_lines(text, start, end)[k] <= last_line(text),
    decreases end,
{
    if end <= start + 1 || end <= 0 {
        if start >= text.len() {
            lemma_newlines_past_end(text, start);
        } else {
            lemma_newlines_monotone(text, start, text.len() as int);
        }
    } else {
        let before = span_lines(text, start, end - 1);
        if k < before.len() {
            lemma_span_lines_bounded(text, start, end - 1, k);
        } else {
            lemma_newlines_monotone(text, end, text.len() as int);
        }
    }
}

/// The first `n` lines of a span of several lines, each as a line of source
/// behind a bar.
pub open spec fn spec_grouped_sources(
    text: Seq<char>,
    lines: Seq<nat>,
    n: nat,
    source_color: Fmt,
    group_color: Fmt,
) -> Seq<DebugLineV> {
    Seq::new(
        n,
        |k: int|
            DebugLineV::GroupedSource {
                line: lines[k] as usize,
                source: line_text(text, lines[k]),
                color: source_color,
                group_color,
            },
    )
}

/// The lines that show a span: its place, then, for a span of one line, that
/// line and an underline as long as the span below its first character; for
/// a span of several lines, every line behind a bar and one underline that
/// reaches to the column where the span ends on its last line.
pub open spec fn spec_underline_scope(
    path: Seq<char>,
    text: Seq<char>,
    scope: SrcScope,
    pointer: Seq<char>,
    source_color: Fmt,
    underline_color: Fmt,
) -> Seq<DebugLineV> {
    let lines = span_lines(text, scope.start as int, scope.end as int);
    let first = lines[0];
    let first_pos = line_start(text, first);
    let place = DebugLineV::File {
        path,
        line: first as usize,
        col: gap(first_pos, scope.start as int),
    };
    if lines.len() == 1 {
        seq![
            place,
            DebugLineV::Source {
                line: first as usize,
                source: line_text(text, first),
                color: source_color,
            },
            DebugLineV::Underline {
                ch: '^',
                offset: gap(first_pos, scope.start as int),
                len: gap(scope.start as int, scope.end as int),
                msg: pointer,
                color: underline_color,
            },
        ]
    } else {
        seq![place] + spec_grouped_sources(text, lines, lines.len(), source_color, underline_color)
            + seq![
            DebugLineV::GroupedUnderline {
                ch: '^',
                offset: 0,
                len: gap(line_start(text, lines.last()), scope.end as int),
                msg: pointer,
                color: underline_color,
                group_color: underline_color,
            },
        ]
    }
}

/// The text of a diagnostic: the severity and the cause, the context where
/// there is one, the lines that show the span, and the suggested fix where
/// there is one.
pub open spec fn spec_create_error(
    fmt: Fmt,
    ty: Seq<char>,
    path: Seq<char>,
    text: Seq<char>,
    d: DiagnosticV,
) -> Seq<char> {
    let header = fmt.spec_code() + ty + Fmt::DecorColor(BOLD, LIGHT_WHITE).spec_code() + ": "@
        + d.cause + Fmt::Reset.spec_code() + seq!['\n'];
    let intro = match d.context {
        Some(context) => header + "context: "@ + context + seq!['\n'],
        None => header,
    };
    let shown = spec_underline_scope(
        path,
        text,
        d.scope,
        d.pointer,
        Fmt::DecorColor(PLAIN, RED),
        Fmt::DecorColor(BOLD, RED),
    );
    let lines = match d.help {
        Some(help) => shown + spec_help_lines(help),
        None => shown,
    };
    intro + spec_fmt_lines(lines)
}

/// The text of an error or a warning.
pub open spec fn spec_msg(e: CompileErrV, path: Seq<char>, text: Seq<char>) -> Seq<char> {
    match e {
        CompileErrV::Error(d) => spec_create_error(
            Fmt::DecorColor(BOLD, RED),
            "error"@,
            path,
            text,
            d,
        ),
        CompileErrV::Warning(d) => spec_create_error(
            Fmt::DecorColor(BOLD, YELLOW),
            "warning"@,
            path,
            text,
            d,
        ),
    }
}

/// How far `to` lies behind `from`; nothing where it does not.
pub fn distance(from: usize, to: usize) -> (r: usize)
    ensures
        r == gap(from as int, to as int),
{
    if to >= from {
        to - from
    } else {
        0
    }
}

/// Adds to `fmt` the lines that show the span `scope` with the message
/// `pointer` under it.
pub fn underline_scope(
    fmt: &mut DebugLines,
    mgr: &FileManager,
    scope: SrcScope,
    pointer: &str,
    source_color: Fmt,
    underline_color: Fmt,
) -> (r: Result<(), FileError>)
    ensures
        !mgr.contains(scope.file) ==> r == Err::<(), FileError>(FileError::OutOfRange)
            && final(fmt)@ == old(fmt)@,
        mgr.contains(scope.file) ==> r is Ok && final(fmt)@ == old(fmt)@ + spec_underline_scope(
            mgr.path_of(scope.file),
            mgr.text(scope.file),
            scope,
            pointer@,
            source_color,
            underline_color,
        ),
{
    let lines = match scope.lines(mgr) {
        Ok(lines) => lines,
        Err(e) => {
            return Err(e);
        },
    };
    let ghost text = mgr.text(scope.file);
    let ghost path_seq = mgr.path_of(scope.file);
    let ghost spans = span_lines(text, scope.start as int, scope.end as int);
    proof {
        lemma_span_lines_first(text, scope.start as int, scope.end as int);
        lemma_span_lines_bounded(text, scope.start as int, scope.end as int, 0);
        lemma_span_lines_bounded(
            text,
            scope.start as int,
            scope.end as int,
            spans.len() - 1,
        );
    }
    let first = lines[0];
    let first_line_pos = match scope.file.get_line_pos(mgr, first) {
        Ok(pos) => pos,
        Err(e) => {
            return Err(e);
        },
    };
    proof {
        lemma_line_start_unique(
            text,
            first as nat,
            first_line_pos as int,
            line_start(text, first as nat),
        );
    }
    let path = match scope.file.path(mgr) {
        Ok(path) => path.clone(),
        Err(e) => {
            return Err(e);
        },
    };
    let col = distance(first_line_pos, scope.start);
    fmt.push_line(DebugLine::File { path, line: first, col });
    if lines.len() == 1 {
        let source = match scope.file.line_source(mgr, first) {
            Ok(source) => source,
            Err(e) => {
                return Err(e);
            },
        };
        fmt.push_line(DebugLine::Source { line: first, source, color: source_color });
        fmt.push_line(
            DebugLine::Underline {
                ch: '^',
                offset: col,
                len: distance(scope.start, scope.end),
                msg: pointer.to_owned(),
                color: underline_color,
            },
        );
        assert(fmt@ =~= old(fmt)@ + spec_underline_scope(
            path_seq,
            text,
            scope,
            pointer@,
            source_color,
            underline_color,
        ));
    } else {
        let ghost place = fmt@;
        let mut i: usize = 0;
        while i < lines.len()
            invariant
                i <= lines.len(),
                mgr.contains(scope.file),
                text == mgr.text(scope.file),
                spans == span_lines(text, scope.start as int, scope.end as int),
                lines@.len() == spans.len(),
                forall|k: int| 0 <= k < spans.len() ==> (#[trigger] lines@[k]) as nat == spans[k],
                fmt@ == place + spec_grouped_sources(
                    text,
                    spans,
                    i as nat,
                    source_color,
                    underline_color,
                ),
            decreases lines.len() - i,
        {
            let source = match scope.file.line_source(mgr, lines[i]) {
                Ok(source) => source,
                Err(e) => {
                    return Err(e);
                },
            };
            fmt.push_line(
                DebugLine::GroupedSource {
                    line: lines[i],
                    source,
                    color: source_color,
                    group_color: underline_color,
                },
            );
            i += 1;
            assert(fmt@ =~= place + spec_grouped_sources(
                text,
                spans,
                i as nat,
                source_color,
                underline_color,
            ));
        }
        let last = lines[lines.len() - 1];
        let line_pos = match scope.file.get_line_pos(mgr, last) {
            Ok(pos) => pos,
            Err(e) => {
                return Err(e);
            },
        };
        proof {
            lemma_line_start_unique(
                text,
                last as nat,
                line_pos as int,
                line_start(text, last as nat),
            );
        }
        fmt.push_line(
            DebugLine::GroupedUnderline {
                ch: '^',
                offset: 0,
                len: distance(line_pos, scope.end),
                msg: pointer.to_owned(),
                color: underline_color,
                group_color: underline_color,
            },
        );
        assert(fmt@ =~= old(fmt)@ + spec_underline_scope(
            path_seq,
            text,
            scope,
            pointer@,
            source_color,
            underline_color,
        ));
    }
    Ok(())
}

/// The text of the diagnostic `d`, under the severity `ty` in the style
/// `fmt`.
pub fn create_error(fmt: Fmt, ty: &str, mgr: &FileManager, d: &Diagnostic) -> (r: Result<
    String,
    FileError,
>)
    ensures
        !mgr.contains(d.scope.file) ==> r == Err::<String, FileError>(FileError::OutOfRange),
        mgr.contains(d.scope.file) ==> r is Ok && r->Ok_0@ == spec_create_error(
            fmt,
            ty@,
            mgr.path_of(d.scope.file),
            mgr.text(d.scope.file),
            d@,
        ),
{
    let mut msg = fmt.code();
    msg.append(ty);
    msg.append(Fmt::DecorColor(BOLD, LIGHT_WHITE).code().as_str());
    msg.append(": ");
    msg.append(d.cause.as_str());
    msg.append(Fmt::Reset.code().as_str());
    msg.push('\n');
    match &d.context {
        Some(context) => {
            msg.append("context: ");
            msg.append(context.as_str());
            msg.push('\n');
        },
        None => {},
    }
    let mut lines = DebugLines::new();
    match underline_scope(
        &mut lines,
        mgr,
        d.scope,
        d.pointer.as_str(),
        Fmt::DecorColor(PLAIN, RED),
        Fmt::DecorColor(BOLD, RED),
    ) {
        Ok(()) => {},
        Err(e) => {
            return Err(e);
        },
    }
    match &d.help {
        Some(help) => {
            lines.help(help.clone());
        },
        None => {},
    }
    msg.append(lines.fmt().as_str());
    proof {
        let shown = spec_underline_scope(
            mgr.path_of(d.scope.file),
            mgr.text(d.scope.file),
            d.scope,
            d.pointer@,
            Fmt::DecorColor(PLAIN, RED),
            Fmt::DecorColor(BOLD, RED),
        );
        assert(Seq::<DebugLineV>::empty() + shown =~= shown);
        assert(msg@ =~= spec_create_error(
            fmt,
            ty@,
            mgr.path_of(d.scope.file),
            mgr.text(d.scope.file),
            d@,
        ));
    }
    Ok(msg)
}

impl CompileErr {
    /// The text of the diagnostic as the user reads it; the registry `mgr`
    /// must hold the file of its span.
    pub fn msg(&self, mgr: &FileManager) -> (r: Result<String, FileError>)
        ensures
            !mgr.contains(self.spec_diagnostic().scope.file) ==> r == Err::<String, FileError>(
                FileError::OutOfRange,
            ),
            mgr.contains(self.spec_diagnostic().scope.file) ==> r is Ok && r->Ok_0@ == spec_msg(
                self@,
                mgr.path_of(self.spec_diagnostic().scope.file),
                mgr.text(self.spec_diagnostic().scope.file),
            ),
    {
        match self {
            CompileErr::Error(d) => create_error(Fmt::DecorColor(BOLD, RED), "error", mgr, d),
            CompileErr::Warning(d) => create_error(Fmt::DecorColor(BOLD, YELLOW), "warning", mgr, d),
        }
    }
}

} // verus!
