use mccs::errors::{CompileResult, ErrorKind, Help};
use mccs::files::{init, load_file_src, FileRef};
use mccs::span::SrcScope;
use mccs::tokens::{
    clone_token, clone_tokens, Delimiter, End, Group, Ident, Int, Sep, Str, Symbol, Token,
};

fn file() -> FileRef {
    let mut mgr = init();
    load_file_src(&mut mgr, "t.mccs", "0123456789")
}

fn at(start: usize, end: usize) -> SrcScope {
    SrcScope { start, end, file: file() }
}

fn samples() -> Vec<Token> {
    vec![
        Token::ident("foo".to_owned(), at(0, 3)),
        Token::string("a b".to_owned(), at(1, 6)),
        Token::integer(-5, at(2, 4)),
        Token::sep(';', at(3, 4)),
        Token::symbol("->".to_owned(), at(4, 6)),
        Token::end(at(5, 5)),
        Token::group(Delimiter::Brackets, vec![Token::end(at(7, 8))], at(6, 8)),
    ]
}

#[test]
fn constructors_build_the_matching_variant() {
    let t = samples();
    assert!(matches!(&t[0], Token::Ident(Ident { value, scope }) if value == "foo" && *scope == at(0, 3)));
    assert!(matches!(&t[1], Token::Str(Str { value, scope }) if value == "a b" && *scope == at(1, 6)));
    assert!(matches!(&t[2], Token::Int(Int { value: -5, scope }) if *scope == at(2, 4)));
    assert!(matches!(&t[3], Token::Sep(Sep { value: ';', scope }) if *scope == at(3, 4)));
    assert!(matches!(&t[4], Token::Symbol(Symbol { value, scope }) if value == "->" && *scope == at(4, 6)));
    assert!(matches!(&t[5], Token::End(End { scope }) if *scope == at(5, 5)));
    assert!(matches!(&t[6], Token::Group(Group { delimiter: Delimiter::Brackets, tokens, scope })
        if tokens.len() == 1 && *scope == at(6, 8)));
}

#[test]
fn scope_gives_the_span_of_any_variant() {
    let spans: Vec<(usize, usize)> =
        samples().iter().map(|t| (t.scope().start, t.scope().end)).collect();
    assert_eq!(spans, vec![(0, 3), (1, 6), (2, 4), (3, 4), (4, 6), (5, 5), (6, 8)]);
}

#[test]
fn is_tests_tell_the_variants_apart() {
    let t = samples();
    let table: Vec<Vec<bool>> = t
        .iter()
        .map(|t| {
            vec![
                t.is_ident(),
                t.is_string(),
                t.is_int(),
                t.is_sep(),
                t.is_symbol(),
                t.is_end(),
                t.is_group(),
            ]
        })
        .collect();
    for (i, row) in table.iter().enumerate() {
        for (j, cell) in row.iter().enumerate() {
            assert_eq!(*cell, i == j, "token {} against test {}", i, j);
        }
    }
}

#[test]
fn as_accessors_give_the_content_of_the_matching_variant_only() {
    let t = samples();
    assert_eq!(t[0].as_ident().map(|e| e.value.as_str()), Some("foo"));
    assert_eq!(t[1].as_string().map(|e| e.value.as_str()), Some("a b"));
    assert_eq!(t[2].as_int().map(|e| e.value), Some(-5));
    assert_eq!(t[3].as_sep().map(|e| e.value), Some(';'));
    assert_eq!(t[4].as_symbol().map(|e| e.value.as_str()), Some("->"));
    assert_eq!(t[5].as_end().map(|e| e.scope), Some(at(5, 5)));
    assert_eq!(t[6].as_group().map(|e| e.delimiter), Some(Delimiter::Brackets));
    assert!(t[1].as_ident().is_none());
    assert!(t[0].as_string().is_none());
    assert!(t[0].as_int().is_none());
    assert!(t[0].as_sep().is_none());
    assert!(t[0].as_symbol().is_none());
    assert!(t[0].as_end().is_none());
    assert!(t[0].as_group().is_none());
    assert!(t[5].as_non_end().is_none());
    assert!(t[0].as_non_end().is_some());
    assert!(t[6].as_non_end().is_some());
}

#[test]
fn as_with_value_asks_for_the_value_too() {
    let t = samples();
    assert!(t[0].as_ident_w("foo").is_some());
    assert!(t[0].as_ident_w("fo").is_none());
    assert!(t[1].as_ident_w("a b").is_none());
    assert!(t[3].as_sep_w(';').is_some());
    assert!(t[3].as_sep_w(',').is_none());
    assert!(t[4].as_symbol_w("->").is_some());
    assert!(t[4].as_symbol_w("-").is_none());
    assert!(t[0].as_symbol_w("foo").is_none());
}

#[test]
fn display_forms() {
    let t = samples();
    assert_eq!(t[0].display(), "`foo`");
    assert_eq!(t[1].display(), "\"a b\"");
    assert_eq!(t[2].display(), "-5");
    assert_eq!(t[3].display(), "`;`");
    assert_eq!(t[4].display(), "`->`");
    assert_eq!(t[5].display(), "\u{1b}[1;97mend\u{1b}[0;0m");
    assert_eq!(t[6].display(), "[\u{1b}[1;97mend\u{1b}[0;0m ]");
    assert_eq!(t[0].as_ident().unwrap().display(), "`foo`");
    assert_eq!(t[1].as_string().unwrap().display(), "\"a b\"");
    assert_eq!(t[2].as_int().unwrap().display(), "-5");
    assert_eq!(t[3].as_sep().unwrap().display(), "`;`");
    assert_eq!(t[4].as_symbol().unwrap().display(), "`->`");
    assert_eq!(t[5].as_end().unwrap().display(), "\u{1b}[1;97mend\u{1b}[0;0m");
    let nested = Token::group(
        Delimiter::Parentheses,
        vec![
            Token::ident("a".to_owned(), at(1, 2)),
            Token::group(Delimiter::CurlyBrackets, vec![Token::integer(1, at(3, 4))], at(2, 5)),
        ],
        at(0, 6),
    );
    assert_eq!(nested.display(), "(`a` {1 } )");
}

#[test]
fn debug_forms_name_the_kind_and_quote_the_content() {
    let t = samples();
    assert_eq!(t[0].debug_form(), "Ident(\"foo\")");
    assert_eq!(t[1].debug_form(), "Str(\"a b\")");
    assert_eq!(t[2].debug_form(), "Int(-5)");
    assert_eq!(t[3].debug_form(), "Sep(';')");
    assert_eq!(t[4].debug_form(), "Symbol(\"->\")");
    assert_eq!(t[5].debug_form(), "End()");
    assert_eq!(t[6].debug_form(), "Group<Brackets>(...)");
    let quoted = Token::string("say \"hi\"\n".to_owned(), at(0, 1));
    assert_eq!(quoted.debug_form(), "Str(\"say \\\"hi\\\"\\n\")");
    let quote = Token::sep('\'', at(0, 1));
    assert_eq!(quote.debug_form(), "Sep('\\'')");
}

#[test]
fn delimiters_know_their_characters_and_names() {
    let all = [
        (Delimiter::Parentheses, '(', ')', "Parentheses"),
        (Delimiter::Brackets, '[', ']', "Brackets"),
        (Delimiter::CurlyBrackets, '{', '}', "CurlyBrackets"),
        (Delimiter::AngledBrackets, '<', '>', "AngledBrackets"),
    ];
    for (d, open, close, name) in all {
        assert_eq!(d.opening(), open);
        assert_eq!(d.closing(), close);
        assert_eq!(d.name(), name);
    }
}

#[test]
fn as_ok_wraps_a_copy() {
    let t = samples();
    assert!(matches!(t[0].as_ok(), CompileResult::Pass(Token::Ident(e)) if e.value == "foo"));
    assert!(matches!(t[0].as_ident().unwrap().as_ok(), CompileResult::Pass(e) if e.value == "foo"));
    assert!(matches!(t[1].as_string().unwrap().as_ok(), CompileResult::Pass(e) if e.value == "a b"));
    assert!(matches!(t[2].as_int().unwrap().as_ok(), CompileResult::Pass(e) if e.value == -5));
    assert!(matches!(t[3].as_sep().unwrap().as_ok(), CompileResult::Pass(e) if e.value == ';'));
    assert!(matches!(t[4].as_symbol().unwrap().as_ok(), CompileResult::Pass(e) if e.value == "->"));
    assert!(matches!(t[5].as_end().unwrap().as_ok(), CompileResult::Pass(e) if e.scope == at(5, 5)));
    assert!(matches!(t[6].as_group().unwrap().as_ok(), CompileResult::Pass(g) if g.tokens.len() == 1));
}

#[test]
fn clones_are_deep() {
    let t = samples();
    let copies = clone_tokens(&t);
    assert_eq!(copies.len(), t.len());
    for (a, b) in t.iter().zip(copies.iter()) {
        assert_eq!(a.debug_form(), b.debug_form());
        assert_eq!(a.display(), b.display());
        assert_eq!(a.scope(), b.scope());
    }
    let copy = clone_token(&t[6]);
    assert!(matches!(copy, Token::Group(g) if g.tokens.len() == 1 && g.tokens[0].is_end()));
    let copy = t[6].clone();
    assert!(matches!(copy, Token::Group(g) if g.delimiter == Delimiter::Brackets));
}

#[test]
fn expect_gives_the_content_of_the_matching_variant() {
    let t = samples();
    assert!(matches!(t[0].expect_ident(None, None), CompileResult::Pass(e) if e.value == "foo"));
    assert!(matches!(t[1].expect_string(None, None), CompileResult::Pass(e) if e.value == "a b"));
    assert!(matches!(t[2].expect_int(None, None), CompileResult::Pass(e) if e.value == -5));
    assert!(matches!(t[3].expect_sep(None, None), CompileResult::Pass(e) if e.value == ';'));
    assert!(matches!(t[4].expect_symbol(None, None), CompileResult::Pass(e) if e.value == "->"));
    assert!(matches!(t[5].expect_end(None, None), CompileResult::Pass(e) if e.scope == at(5, 5)));
    assert!(matches!(t[6].expect_group(None, None), CompileResult::Pass(g) if g.tokens.len() == 1));
    assert!(matches!(t[0].expect_non_end(None, None), CompileResult::Pass(Token::Ident(_))));
    assert!(matches!(t[0].expect_ident_w("foo", None, None), CompileResult::Pass(e) if e.value == "foo"));
    assert!(matches!(t[3].expect_sep_w(';', None, None), CompileResult::Pass(e) if e.value == ';'));
    assert!(matches!(
        t[6].expect_group_w(Delimiter::Brackets, None, None),
        CompileResult::Pass(g) if g.delimiter == Delimiter::Brackets
    ));
}

fn pointer_of<T: std::fmt::Debug>(r: CompileResult<T>) -> String {
    match r {
        CompileResult::Fail(e) => {
            assert_eq!(e.kind(), ErrorKind::UnexpectedToken);
            assert_eq!(e.diagnostic().cause, "Invalid token");
            e.diagnostic().pointer.clone()
        }
        CompileResult::Pass(v) => panic!("expected a failure, found {:?}", v),
    }
}

#[test]
fn expect_reports_what_was_asked_for_and_what_was_found() {
    let t = samples();
    assert_eq!(pointer_of(t[1].expect_ident(None, None)), "expected Ident(), found Str(\"a b\")");
    assert_eq!(pointer_of(t[0].expect_string(None, None)), "expected Str(), found Ident(\"foo\")");
    assert_eq!(pointer_of(t[0].expect_int(None, None)), "expected int, found Ident(\"foo\")");
    assert_eq!(pointer_of(t[2].expect_sep(None, None)), "expected Sep(), found Int(-5)");
    assert_eq!(pointer_of(t[3].expect_symbol(None, None)), "expected Symbol(), found Sep(';')");
    assert_eq!(pointer_of(t[4].expect_end(None, None)), "expected End(), found Symbol(\"->\")");
    assert_eq!(pointer_of(t[5].expect_group(None, None)), "expected Group, found End()");
    assert_eq!(pointer_of(t[5].expect_non_end(None, None)), "expected non End(), found End()");
    assert_eq!(
        pointer_of(t[0].expect_ident_w("datapack", None, None)),
        "expected Word(\"datapack\"), found Ident(\"foo\")"
    );
    assert_eq!(
        pointer_of(t[3].expect_sep_w(',', None, None)),
        "expected Sep(','), found Sep(';')"
    );
    assert_eq!(
        pointer_of(t[6].expect_group_w(Delimiter::Parentheses, None, None)),
        "expected Group<Parentheses>, found Group<Brackets>(...)"
    );
    assert_eq!(
        pointer_of(t[0].expect_group_w(Delimiter::CurlyBrackets, None, None)),
        "expected Group<CurlyBrackets>, found Ident(\"foo\")"
    );
    assert_eq!(
        pointer_of(t[0].invalid::<Token>("something else", None, None)),
        "expected something else, found Ident(\"foo\")"
    );
}

#[test]
fn a_failure_carries_span_context_and_help() {
    let t = samples();
    let help = Help { msg: "try this".to_owned(), source: "x;".to_owned(), line: 3 };
    match t[4].expect_ident(Some("somewhere"), Some(help)) {
        CompileResult::Fail(e) => {
            assert!(e.is_error());
            assert_eq!(e.scope(), at(4, 6));
            assert_eq!(e.diagnostic().context.as_deref(), Some("somewhere"));
            let help = e.diagnostic().help.as_ref().unwrap();
            assert_eq!(help.msg, "try this");
            assert_eq!(help.source, "x;");
            assert_eq!(help.line, 3);
        }
        CompileResult::Pass(v) => panic!("expected a failure, found {:?}", v),
    }
}
