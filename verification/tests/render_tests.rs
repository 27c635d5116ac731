use mccs::errors::{
    diagnose, error, own_opt, warning, CompileErr, CompileResult, ErrorInfo, ErrorKind, Help,
};
use mccs::files::{init, load_file_src, FileError, FileManager, FileRef};
use mccs::lexer::Lexer;
use mccs::parser::Parser;
use mccs::render::{create_error, distance, one_based, underline_scope, DebugLine, DebugLines};
use mccs::span::SrcScope;
use mccs::styling::{Fmt, BOLD, PLAIN, RED, YELLOW};

const RESET: &str = "\u{1b}[0;0m";
const BOLD_RED: &str = "\u{1b}[1;31m";
const PLAIN_RED: &str = "\u{1b}[0;31m";
const BOLD_WHITE: &str = "\u{1b}[1;37m";
const BOLD_LIGHT_WHITE: &str = "\u{1b}[1;97m";
const BOLD_LIGHT_BLUE: &str = "\u{1b}[1;94m";
const BOLD_YELLOW: &str = "\u{1b}[1;33m";
const BOLD_PURPLE: &str = "\u{1b}[1;35m";
const PLAIN_LIGHT_CYAN: &str = "\u{1b}[0;96m";

fn registry(src: &str) -> (FileManager, FileRef) {
    let mut mgr = init();
    let file = load_file_src(&mut mgr, "main.mccs", src);
    (mgr, file)
}

fn info<'a>(cause: &'a str, pointer: &'a str) -> ErrorInfo<'a, 'a, 'a> {
    ErrorInfo { kind: ErrorKind::UnexpectedToken, cause, pointer, context: None, help: None }
}

#[test]
fn gutters_hold_one_based_line_numbers() {
    let red = Fmt::DecorColor(PLAIN, RED);
    let source = |line: usize| DebugLine::Source { line, source: "x".to_owned(), color: red };
    assert_eq!(source(0).gutter(), Some("1".to_owned()));
    assert_eq!(source(41).gutter(), Some("42".to_owned()));
    assert_eq!(
        DebugLine::GroupedSource { line: 9, source: "x".to_owned(), color: red, group_color: red }
            .gutter(),
        Some("10".to_owned())
    );
    let underline =
        DebugLine::Underline { ch: '^', offset: 1, len: 2, msg: "m".to_owned(), color: red };
    assert_eq!(underline.gutter(), Some("".to_owned()));
    let grouped = DebugLine::GroupedUnderline {
        ch: '^',
        offset: 1,
        len: 2,
        msg: "m".to_owned(),
        color: red,
        group_color: red,
    };
    assert_eq!(grouped.gutter(), Some("".to_owned()));
    assert_eq!(DebugLine::Text("t".to_owned()).gutter(), None);
    assert_eq!(DebugLine::File { path: "p".to_owned(), line: 0, col: 0 }.gutter(), None);
    assert_eq!(DebugLine::SourceSkip.gutter(), Some("...".to_owned()));
    assert_eq!(DebugLine::Blank.gutter(), Some("".to_owned()));
    assert_eq!(DebugLine::Empty.gutter(), None);
    assert_eq!(one_based(0), "1");
    assert_eq!(one_based(usize::MAX), "18446744073709551616");
}

#[test]
fn the_gutter_is_flushed_right() {
    assert_eq!(DebugLine::fmt_gutter("7".to_owned(), 3), format!("{}  7 | {}", BOLD_WHITE, RESET));
    assert_eq!(DebugLine::fmt_gutter("123".to_owned(), 3), format!("{}123 | {}", BOLD_WHITE, RESET));
    assert_eq!(DebugLine::fmt_gutter("".to_owned(), 0), format!("{} | {}", BOLD_WHITE, RESET));
}

#[test]
fn lines_are_formatted_by_their_kind() {
    let red = Fmt::DecorColor(PLAIN, RED);
    let bold = Fmt::DecorColor(BOLD, RED);
    assert_eq!(DebugLine::Text("plain".to_owned()).fmt(), "plain");
    assert_eq!(
        DebugLine::Source { line: 3, source: "say hi".to_owned(), color: red }.fmt(),
        format!("{}say hi{}", PLAIN_RED, RESET)
    );
    assert_eq!(
        DebugLine::Underline { ch: '^', offset: 4, len: 2, msg: "here".to_owned(), color: bold }
            .fmt(),
        format!("{}    ^^ here{}", BOLD_RED, RESET)
    );
    assert_eq!(
        DebugLine::Underline { ch: '~', offset: 0, len: 0, msg: "".to_owned(), color: bold }.fmt(),
        format!("{} {}", BOLD_RED, RESET)
    );
    assert_eq!(
        DebugLine::GroupedSource {
            line: 3,
            source: "say hi".to_owned(),
            color: red,
            group_color: bold
        }
        .fmt(),
        format!("{}| {}say hi{}", BOLD_RED, PLAIN_RED, RESET)
    );
    assert_eq!(
        DebugLine::GroupedUnderline {
            ch: '^',
            offset: 1,
            len: 3,
            msg: "here".to_owned(),
            color: red,
            group_color: bold
        }
        .fmt(),
        format!("{}| {} ^^^ here{}", BOLD_RED, PLAIN_RED, RESET)
    );
    assert_eq!(
        DebugLine::File { path: "a/b.mccs".to_owned(), line: 0, col: 4 }.fmt(),
        format!("{}file a/b.mccs:1:5{}", BOLD_LIGHT_BLUE, RESET)
    );
    assert_eq!(DebugLine::SourceSkip.fmt(), "");
    assert_eq!(DebugLine::Blank.fmt(), "");
    assert_eq!(DebugLine::Empty.fmt(), "");
}

#[test]
fn the_gutter_is_as_wide_as_the_widest_number() {
    let red = Fmt::DecorColor(PLAIN, RED);
    let mut lines = DebugLines::new();
    assert_eq!(lines.gutter_size(), 0);
    assert_eq!(lines.fmt(), "");
    lines.push_line(DebugLine::Text("head".to_owned()));
    assert_eq!(lines.gutter_size(), 0);
    lines.push_line(DebugLine::Source { line: 8, source: "a".to_owned(), color: red });
    assert_eq!(lines.gutter_size(), 1);
    lines.push_line(DebugLine::Source { line: 9, source: "b".to_owned(), color: red });
    assert_eq!(lines.gutter_size(), 2);
    lines.push_line(DebugLine::Blank);
    lines.push_line(DebugLine::Empty);
    assert_eq!(lines.gutter_size(), 2);
    assert_eq!(
        lines.fmt(),
        format!(
            "head\n\
             {w} 9 | {r}{c}a{r}\n\
             {w}10 | {r}{c}b{r}\n\
             {w}   | {r}\n\
             \n",
            w = BOLD_WHITE,
            r = RESET,
            c = PLAIN_RED
        )
    );
    lines.push_line(DebugLine::SourceSkip);
    assert_eq!(lines.gutter_size(), 3);
}

#[test]
fn help_adds_three_lines() {
    let mut lines = DebugLines::new();
    lines.help(Help { msg: "do this".to_owned(), source: "datapack p;".to_owned(), line: 0 });
    assert_eq!(lines.lines.len(), 3);
    assert_eq!(
        lines.fmt(),
        format!(
            "{p}help: {lw}do this\n\
             {w}1 | {r}{c}datapack p;{r}\n\
             {w}  | {r}\n",
            p = BOLD_PURPLE,
            lw = BOLD_LIGHT_WHITE,
            w = BOLD_WHITE,
            r = RESET,
            c = PLAIN_LIGHT_CYAN
        )
    );
}

#[test]
fn renders_a_span_of_one_line() {
    let (mgr, file) = registry("say \"oops");
    let scope = SrcScope { start: 4, end: 9, file };
    let e = error(
        scope,
        ErrorInfo {
            kind: ErrorKind::UnterminatedString,
            cause: "missing closing quote",
            pointer: "opening quote is missing a matching closing quote",
            context: None,
            help: None,
        },
    );
    assert_eq!(
        e.msg(&mgr).unwrap(),
        format!(
            "{br}error{lw}: missing closing quote{r}\n\
             {lb}file main.mccs:1:5{r}\n\
             {w}1 | {r}{pr}say \"oops{r}\n\
             {w}  | {r}{br}    ^^^^^ opening quote is missing a matching closing quote{r}\n",
            br = BOLD_RED,
            lw = BOLD_LIGHT_WHITE,
            r = RESET,
            lb = BOLD_LIGHT_BLUE,
            w = BOLD_WHITE,
            pr = PLAIN_RED
        )
    );
}

#[test]
fn renders_what_the_lexer_reports() {
    let (mgr, file) = registry("a\nsay \"oops");
    let mut lexer = Lexer::new(&mgr, file).unwrap();
    let e = match lexer.lex() {
        CompileResult::Fail(e) => e,
        CompileResult::Pass(t) => panic!("expected a failure, found {:?}", t),
    };
    assert_eq!(
        e.msg(&mgr).unwrap(),
        format!(
            "{br}error{lw}: missing closing quote{r}\n\
             {lb}file main.mccs:2:5{r}\n\
             {w}2 | {r}{pr}say \"oops{r}\n\
             {w}  | {r}{br}    ^^^^^ opening quote is missing a matching closing quote{r}\n",
            br = BOLD_RED,
            lw = BOLD_LIGHT_WHITE,
            r = RESET,
            lb = BOLD_LIGHT_BLUE,
            w = BOLD_WHITE,
            pr = PLAIN_RED
        )
    );
}

#[test]
fn renders_what_the_parser_reports_with_context_and_help() {
    let (mgr, file) = registry("function f() {}");
    let mut lexer = Lexer::new(&mgr, file).unwrap();
    let tokens = match lexer.lex() {
        CompileResult::Pass(t) => t,
        CompileResult::Fail(e) => panic!("unexpected failure: {:?}", e),
    };
    let e = match Parser::new(tokens).parse() {
        CompileResult::Fail(e) => e,
        CompileResult::Pass(d) => panic!("expected a failure, found {:?}", d),
    };
    assert_eq!(
        e.msg(&mgr).unwrap(),
        format!(
            "{br}error{lw}: Invalid token{r}\n\
             context: datapack declaration\n\
             {lb}file main.mccs:1:1{r}\n\
             {w}1 | {r}{pr}function f() {{}}{r}\n\
             {w}  | {r}{br}^^^^^^^^ expected Word(\"datapack\"), found Ident(\"function\"){r}\n\
             {p}help: {lw}declare datapack at top of file\n\
             {w}1 | {r}{c}datapack some_pack;{r}\n\
             {w}  | {r}\n",
            br = BOLD_RED,
            lw = BOLD_LIGHT_WHITE,
            r = RESET,
            lb = BOLD_LIGHT_BLUE,
            w = BOLD_WHITE,
            pr = PLAIN_RED,
            p = BOLD_PURPLE,
            c = PLAIN_LIGHT_CYAN
        )
    );
}

#[test]
fn renders_a_span_of_several_lines() {
    let (mgr, file) = registry("x \"ab\ncd");
    let scope = SrcScope { start: 2, end: 8, file };
    let e = error(scope, info("cause", "pointer"));
    assert_eq!(
        e.msg(&mgr).unwrap(),
        format!(
            "{br}error{lw}: cause{r}\n\
             {lb}file main.mccs:1:3{r}\n\
             {w}1 | {r}{br}| {pr}x \"ab{r}\n\
             {w}2 | {r}{br}| {pr}cd{r}\n\
             {w}  | {r}{br}| {br}^^ pointer{r}\n",
            br = BOLD_RED,
            lw = BOLD_LIGHT_WHITE,
            r = RESET,
            lb = BOLD_LIGHT_BLUE,
            w = BOLD_WHITE,
            pr = PLAIN_RED
        )
    );
}

#[test]
fn renders_an_empty_span_at_the_end_of_the_text() {
    let (mgr, file) = registry("datapack t\n");
    let scope = SrcScope { start: 11, end: 11, file };
    let e = error(scope, info("cause", "pointer"));
    assert_eq!(
        e.msg(&mgr).unwrap(),
        format!(
            "{br}error{lw}: cause{r}\n\
             {lb}file main.mccs:2:1{r}\n\
             {w}2 | {r}{pr}{r}\n\
             {w}  | {r}{br} pointer{r}\n",
            br = BOLD_RED,
            lw = BOLD_LIGHT_WHITE,
            r = RESET,
            lb = BOLD_LIGHT_BLUE,
            w = BOLD_WHITE,
            pr = PLAIN_RED
        )
    );
}

#[test]
fn a_warning_is_rendered_like_an_error_under_its_own_name() {
    let (mgr, file) = registry("abc");
    let scope = SrcScope { start: 1, end: 2, file };
    let w = warning(scope, info("careful", "this one"));
    assert!(!w.is_error());
    assert!(matches!(&w, CompileErr::Warning(d) if d.cause == "careful"));
    assert_eq!(
        w.msg(&mgr).unwrap(),
        format!(
            "{by}warning{lw}: careful{r}\n\
             {lb}file main.mccs:1:2{r}\n\
             {w}1 | {r}{pr}abc{r}\n\
             {w}  | {r}{br} ^ this one{r}\n",
            by = BOLD_YELLOW,
            br = BOLD_RED,
            lw = BOLD_LIGHT_WHITE,
            r = RESET,
            lb = BOLD_LIGHT_BLUE,
            w = BOLD_WHITE,
            pr = PLAIN_RED
        )
    );
    let d = w.diagnostic();
    assert_eq!(
        create_error(Fmt::DecorColor(BOLD, YELLOW), "warning", &mgr, d),
        w.msg(&mgr)
    );
}

#[test]
fn rendering_needs_the_file_of_the_span() {
    let (_, foreign) = registry("abc");
    let mgr = init();
    let scope = SrcScope { start: 0, end: 1, file: foreign };
    let e = error(scope, info("cause", "pointer"));
    assert_eq!(e.msg(&mgr), Err(FileError::OutOfRange));
    let mut lines = DebugLines::new();
    let red = Fmt::DecorColor(PLAIN, RED);
    assert_eq!(
        underline_scope(&mut lines, &mgr, scope, "pointer", red, red),
        Err(FileError::OutOfRange)
    );
    assert!(lines.lines.is_empty());
}

#[test]
fn underline_scope_adds_the_place_the_source_and_the_underline() {
    let (mgr, file) = registry("one\ntwo three\nfour");
    let scope = SrcScope { start: 8, end: 13, file };
    let mut lines = DebugLines::new();
    let red = Fmt::DecorColor(PLAIN, RED);
    let bold = Fmt::DecorColor(BOLD, RED);
    assert_eq!(underline_scope(&mut lines, &mgr, scope, "here", red, bold), Ok(()));
    assert_eq!(lines.lines.len(), 3);
    assert!(matches!(&lines.lines[0], DebugLine::File { path, line: 1, col: 4 } if path == "main.mccs"));
    assert!(matches!(&lines.lines[1], DebugLine::Source { line: 1, source, .. } if source == "two three"));
    assert!(matches!(
        &lines.lines[2],
        DebugLine::Underline { ch: '^', offset: 4, len: 5, msg, .. } if msg == "here"
    ));
    let wide = SrcScope { start: 1, end: 16, file };
    let mut lines = DebugLines::new();
    assert_eq!(underline_scope(&mut lines, &mgr, wide, "here", red, bold), Ok(()));
    assert_eq!(lines.lines.len(), 5);
    assert!(matches!(&lines.lines[0], DebugLine::File { line: 0, col: 1, .. }));
    assert!(matches!(&lines.lines[1], DebugLine::GroupedSource { line: 0, source, .. } if source == "one"));
    assert!(matches!(&lines.lines[2], DebugLine::GroupedSource { line: 1, source, .. } if source == "two three"));
    assert!(matches!(&lines.lines[3], DebugLine::GroupedSource { line: 2, source, .. } if source == "four"));
    assert!(matches!(
        &lines.lines[4],
        DebugLine::GroupedUnderline { ch: '^', offset: 0, len: 2, msg, .. } if msg == "here"
    ));
}

#[test]
fn diagnostics_keep_what_they_were_given() {
    let (_, file) = registry("abc");
    let scope = SrcScope { start: 1, end: 2, file };
    let d = diagnose(
        scope,
        ErrorInfo {
            kind: ErrorKind::InvalidArgType,
            cause: "c",
            pointer: "p",
            context: Some("x"),
            help: Some(Help { msg: "m".to_owned(), source: "s".to_owned(), line: 2 }),
        },
    );
    assert_eq!(d.kind, ErrorKind::InvalidArgType);
    assert_eq!(d.scope, scope);
    assert_eq!((d.cause.as_str(), d.pointer.as_str()), ("c", "p"));
    assert_eq!(d.context.as_deref(), Some("x"));
    let help = d.help.unwrap();
    assert_eq!((help.msg.as_str(), help.source.as_str(), help.line), ("m", "s", 2));
    let copy = help.clone();
    assert_eq!((copy.msg.as_str(), copy.source.as_str(), copy.line), ("m", "s", 2));
    assert_eq!(own_opt(Some("abc")), Some("abc".to_owned()));
    assert_eq!(own_opt(None), None);
    assert_eq!(distance(3, 10), 7);
    assert_eq!(distance(10, 3), 0);
}

#[test]
fn results_unwrap_and_convert() {
    let ok: CompileResult<i32> = CompileResult::Pass(5);
    assert!(ok.is_ok());
    assert_eq!(ok.unwrap(), 5);
    let ok: CompileResult<i32> = CompileResult::Pass(6);
    assert!(matches!(ok.into_result(), Ok(6)));
    let (_, file) = registry("abc");
    let scope = SrcScope { start: 1, end: 2, file };
    let bad: CompileResult<i32> = CompileResult::Fail(error(scope, info("c", "p")));
    assert!(!bad.is_ok());
    match bad.into_result() {
        Err(e) => {
            assert_eq!(e.kind(), ErrorKind::UnexpectedToken);
            assert_eq!(e.scope(), scope);
        }
        Ok(v) => panic!("expected a failure, found {}", v),
    }
}
