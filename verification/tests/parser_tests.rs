use mccs::ast::{
    Arg, AtLoc, Call, Datapack, Function, InlineArgType, Path, Statement, UnsafeCmd,
};
use mccs::errors::{CompileErr, CompileResult, ErrorKind};
use mccs::files::{init, load_file_src};
use mccs::lexer::Lexer;
use mccs::parser::{
    datapack_help, parse_fun_args, parse_inline_args, parse_statements, split_call_args,
    split_unsafe_commands, Parser,
};
use mccs::tokens::{Ident, Token};

fn tokens_of(src: &str) -> Vec<Token> {
    let mut mgr = init();
    let file = load_file_src(&mut mgr, "test.mccs", src);
    let mut lexer = Lexer::new(&mgr, file).unwrap();
    match lexer.lex() {
        CompileResult::Pass(tokens) => tokens,
        CompileResult::Fail(e) => panic!("unexpected failure: {:?}", e),
    }
}

fn parse(src: &str) -> CompileResult<Datapack> {
    Parser::new(tokens_of(src)).parse()
}

fn parse_ok(src: &str) -> Datapack {
    match parse(src) {
        CompileResult::Pass(d) => d,
        CompileResult::Fail(e) => panic!("unexpected failure: {:?}", e),
    }
}

fn parse_err(src: &str) -> CompileErr {
    match parse(src) {
        CompileResult::Pass(d) => panic!("expected a failure, found {:?}", d),
        CompileResult::Fail(e) => e,
    }
}

fn body_of(f: &Function) -> Vec<Statement> {
    match Parser::parse_function_block(&f.block) {
        CompileResult::Pass(s) => s,
        CompileResult::Fail(e) => panic!("unexpected failure: {:?}", e),
    }
}

fn body(src: &str) -> Vec<Statement> {
    let d = parse_ok(&format!("datapack t; function f() {{ {} }}", src));
    body_of(&d.functions[0])
}

fn body_err(src: &str) -> CompileErr {
    let d = parse_ok(&format!("datapack t; function f() {{ {} }}", src));
    match Parser::parse_function_block(&d.functions[0].block) {
        CompileResult::Pass(s) => panic!("expected a failure, found {:?}", s),
        CompileResult::Fail(e) => e,
    }
}

fn names(idents: &[Ident]) -> Vec<&str> {
    idents.iter().map(|i| i.value.as_str()).collect()
}

fn words(tokens: &[Token]) -> Vec<String> {
    tokens.iter().map(|t| t.debug_form()).collect()
}

fn path_text(path: &Path) -> String {
    let mut out = path.parts[0].value.clone();
    for (sep, part) in path.seps.iter().zip(path.parts.iter().skip(1)) {
        out.push(sep.value);
        out.push_str(&part.value);
    }
    out
}

fn span(e: &CompileErr) -> (usize, usize) {
    (e.scope().start, e.scope().end)
}

#[test]
fn parses_an_empty_function() {
    let d = parse_ok("datapack test; function f() {}");
    assert_eq!(d.name.value, "test");
    assert_eq!(d.functions.len(), 1);
    assert!(d.scoreboards.is_empty());
    assert!(d.inlines.is_empty());
    let f = &d.functions[0];
    assert_eq!(f.keyword.value, "function");
    assert_eq!(f.name.value, "f");
    assert!(f.args.input.is_empty());
    assert!(f.args.output.is_empty());
    assert!(f.args.objective.is_none());
    assert!(f.args.arrow.is_none());
    assert!(f.args.colon.is_none());
    assert_eq!((f.args.parens.start, f.args.parens.end), (25, 27));
    assert!(f.at.is_none());
    assert_eq!(f.block.tokens.len(), 1);
    assert!(f.block.tokens[0].is_end());
    assert!(body_of(f).is_empty());
}

#[test]
fn parses_function_arguments_and_at_modifier() {
    let d = parse_ok("datapack t; function f(a b -> c : obj) at player {}");
    let f = &d.functions[0];
    assert_eq!(names(&f.args.input), vec!["a", "b"]);
    assert_eq!(names(&f.args.output), vec!["c"]);
    assert_eq!(f.args.objective.as_ref().map(|o| o.value.as_str()), Some("obj"));
    assert_eq!(f.args.arrow.map(|s| (s.start, s.end)), Some((27, 29)));
    assert_eq!(f.args.colon.map(|s| (s.start, s.end)), Some((32, 33)));
    let at = f.at.as_ref().unwrap();
    assert_eq!(at.loc, AtLoc::Player);
    assert_eq!(at.ident.value, "at");
    assert_eq!((at.loc_scope.start, at.loc_scope.end), (42, 48));
}

#[test]
fn parses_an_unsafe_block_into_raw_commands() {
    let d = parse_ok("datapack t; function f() { unsafe { say hi; say bye } }");
    let statements = body_of(&d.functions[0]);
    assert_eq!(statements.len(), 1);
    match &statements[0] {
        Statement::Unsafe(u) => {
            assert_eq!(u.ident.value, "unsafe");
            assert_eq!(u.commands.len(), 2);
            assert_eq!(words(&u.commands[0].tokens), vec!["Ident(\"say\")", "Ident(\"hi\")"]);
            assert_eq!(u.commands[0].sep.map(|s| s.value), Some(';'));
            assert_eq!(words(&u.commands[1].tokens), vec!["Ident(\"say\")", "Ident(\"bye\")"]);
            assert_eq!(u.commands[1].sep, None);
            assert_eq!(u.block.tokens.len(), 6);
        }
        other => panic!("expected an unsafe block, found {:?}", other),
    }
}

#[test]
fn two_identifiers_behind_the_colon_are_multiple_objectives() {
    let e = parse_err("datapack t; function f(a : b c) {}");
    assert_eq!(e.kind(), ErrorKind::MultipleObjectives);
    assert_eq!(span(&e), (29, 30));
    assert_eq!(e.diagnostic().cause, "illegal identifier, only 1 identifier after the colon");
    assert_eq!(e.diagnostic().pointer, "an objective has already been defined");
    assert_eq!(e.diagnostic().context.as_deref(), Some("function args declaration"));
}

#[test]
fn every_at_location_is_recognised() {
    let all = [
        ("player", AtLoc::Player),
        ("players", AtLoc::Players),
        ("entity", AtLoc::Entity),
        ("entities", AtLoc::Entities),
        ("any", AtLoc::Any),
    ];
    for (word, loc) in all {
        let d = parse_ok(&format!("datapack t; function f() at {} {{}}", word));
        assert_eq!(d.functions[0].at.as_ref().map(|a| a.loc), Some(loc));
    }
}

#[test]
fn an_unknown_location_is_invalid() {
    let e = parse_err("datapack t; function f() at moon {}");
    assert_eq!(e.kind(), ErrorKind::InvalidLocation);
    assert_eq!(span(&e), (28, 32));
    assert_eq!(e.diagnostic().cause, "invalid `location`");
    assert_eq!(
        e.diagnostic().pointer,
        "expected one of `player`, `players`, `entity`, `entities`, or `any`"
    );
    assert_eq!(e.diagnostic().context.as_deref(), Some("function declaration"));
    let e = parse_err("datapack t; function f() at {}");
    assert_eq!(e.kind(), ErrorKind::UnexpectedToken);
    assert_eq!(e.diagnostic().pointer, "expected Ident(), found Group<CurlyBrackets>(...)");
}

#[test]
fn the_datapack_declaration_comes_first() {
    let e = parse_err("function f() {}");
    assert_eq!(e.kind(), ErrorKind::UnexpectedToken);
    assert_eq!(span(&e), (0, 8));
    assert_eq!(e.diagnostic().cause, "Invalid token");
    assert_eq!(
        e.diagnostic().pointer,
        "expected Word(\"datapack\"), found Ident(\"function\")"
    );
    assert_eq!(e.diagnostic().context.as_deref(), Some("datapack declaration"));
    let help = e.diagnostic().help.as_ref().unwrap();
    assert_eq!(help.msg, "declare datapack at top of file");
    assert_eq!(help.source, "datapack some_pack;");
    assert_eq!(help.line, 0);
    let h = datapack_help();
    assert_eq!((h.msg.as_str(), h.source.as_str(), h.line), (help.msg.as_str(), help.source.as_str(), 0));
}

#[test]
fn the_datapack_needs_a_name_and_a_semicolon() {
    let e = parse_err("datapack ;");
    assert_eq!(e.kind(), ErrorKind::UnexpectedToken);
    assert_eq!(span(&e), (9, 10));
    assert_eq!(e.diagnostic().pointer, "expected Ident(), found Sep(';')");
    assert!(e.diagnostic().help.is_some());
    let e = parse_err("datapack t function");
    assert_eq!(e.kind(), ErrorKind::UnexpectedToken);
    assert_eq!(span(&e), (11, 19));
    assert_eq!(e.diagnostic().pointer, "expected Sep(';'), found Ident(\"function\")");
    assert_eq!(e.diagnostic().help.as_ref().map(|h| h.source.as_str()), Some("datapack some_pack;"));
    let e = parse_err("");
    assert_eq!(e.kind(), ErrorKind::UnexpectedToken);
    assert_eq!(span(&e), (0, 0));
    assert_eq!(e.diagnostic().pointer, "expected Word(\"datapack\"), found End()");
    let e = parse_err("datapack t");
    assert_eq!(span(&e), (10, 10));
    assert_eq!(e.diagnostic().pointer, "expected Sep(';'), found End()");
}

#[test]
fn a_datapack_without_items_is_empty() {
    let d = parse_ok("datapack lonely;");
    assert_eq!(d.name.value, "lonely");
    assert!(d.functions.is_empty() && d.scoreboards.is_empty() && d.inlines.is_empty());
}

#[test]
fn an_unknown_item_is_named() {
    let e = parse_err("datapack t; foo bar");
    assert_eq!(e.kind(), ErrorKind::UnknownTopLevelItem);
    assert_eq!(span(&e), (12, 15));
    assert_eq!(e.diagnostic().cause, "foo");
    assert_eq!(e.diagnostic().pointer, "unknown item declaration");
    assert_eq!(e.diagnostic().context.as_deref(), Some("top-level"));
    let e = parse_err("datapack t; 12");
    assert_eq!(e.kind(), ErrorKind::UnexpectedToken);
    assert_eq!(e.diagnostic().pointer, "expected Ident(), found Int(12)");
    assert_eq!(e.diagnostic().context.as_deref(), Some("top-level"));
}

#[test]
fn items_are_sorted_by_kind_in_source_order() {
    let d = parse_ok(
        "datapack t;\n\
         scoreboard dummy kills;\n\
         function a() {}\n\
         inline i(x: int) {}\n\
         function b() {}\n\
         scoreboard dummy deaths;\n",
    );
    let functions: Vec<&str> = d.functions.iter().map(|f| f.name.value.as_str()).collect();
    let scoreboards: Vec<&str> = d.scoreboards.iter().map(|s| s.name.value.as_str()).collect();
    let inlines: Vec<&str> = d.inlines.iter().map(|i| i.name.value.as_str()).collect();
    assert_eq!(functions, vec!["a", "b"]);
    assert_eq!(scoreboards, vec!["kills", "deaths"]);
    assert_eq!(inlines, vec!["i"]);
}

#[test]
fn parses_a_scoreboard() {
    let d = parse_ok("datapack t; scoreboard dummy kills;");
    let s = &d.scoreboards[0];
    assert_eq!(s.keyword.value, "scoreboard");
    assert_eq!(s.objective.value, "dummy");
    assert_eq!(s.name.value, "kills");
    assert_eq!((s.semi_colon.start, s.semi_colon.end), (34, 35));
}

#[test]
fn a_scoreboard_needs_all_its_parts() {
    let e = parse_err("datapack t; scoreboard dummy;");
    assert_eq!(e.kind(), ErrorKind::UnexpectedToken);
    assert_eq!(e.diagnostic().pointer, "expected Ident(), found Sep(';')");
    assert_eq!(e.diagnostic().context.as_deref(), Some("scoreboard declaration"));
    let e = parse_err("datapack t; scoreboard dummy kills");
    assert_eq!(e.diagnostic().pointer, "expected Sep(';'), found End()");
    let e = parse_err("datapack t; scoreboard 1 kills;");
    assert_eq!(e.diagnostic().pointer, "expected Ident(), found Int(1)");
}

#[test]
fn parses_an_inline() {
    let d = parse_ok("datapack t; inline g(a: target, b: objective, c: score, d: int) { say a }");
    let i = &d.inlines[0];
    assert_eq!(i.keyword.value, "inline");
    assert_eq!(i.name.value, "g");
    assert_eq!((i.parens.start, i.parens.end), (20, 63));
    let args: Vec<(&str, InlineArgType, Option<char>)> =
        i.args.iter().map(|a| (a.name.value.as_str(), a.ty, a.sep.map(|s| s.value))).collect();
    assert_eq!(
        args,
        vec![
            ("a", InlineArgType::Target, Some(',')),
            ("b", InlineArgType::Objective, Some(',')),
            ("c", InlineArgType::Score, Some(',')),
            ("d", InlineArgType::Int, None),
        ]
    );
    assert_eq!((i.args[0].colon.start, i.args[0].colon.end), (22, 23));
    assert_eq!((i.args[0].ty_scope.start, i.args[0].ty_scope.end), (24, 30));
    assert_eq!(words(&i.block.tokens), vec!["Ident(\"say\")", "Ident(\"a\")", "End()"]);
}

#[test]
fn an_inline_may_have_no_argument_or_a_trailing_comma() {
    let d = parse_ok("datapack t; inline g() {} inline h(a: int,) {}");
    assert!(d.inlines[0].args.is_empty());
    assert_eq!(d.inlines[1].args.len(), 1);
    assert_eq!(d.inlines[1].args[0].sep.map(|s| s.value), Some(','));
}

#[test]
fn an_unknown_inline_argument_type_is_invalid() {
    let e = parse_err("datapack t; inline g(a: float) {}");
    assert_eq!(e.kind(), ErrorKind::InvalidArgType);
    assert_eq!(span(&e), (24, 29));
    assert_eq!(e.diagnostic().cause, "invalid `type`");
    assert_eq!(
        e.diagnostic().pointer,
        "expected one of `target`, `objective`, `score`, or `int`"
    );
    assert_eq!(e.diagnostic().context.as_deref(), Some("inline argument declaration"));
}

#[test]
fn inline_arguments_follow_their_pattern() {
    let e = parse_err("datapack t; inline g(a int) {}");
    assert_eq!(e.kind(), ErrorKind::UnexpectedToken);
    assert_eq!(e.diagnostic().pointer, "expected Sep(':'), found Ident(\"int\")");
    let e = parse_err("datapack t; inline g(1: int) {}");
    assert_eq!(e.diagnostic().pointer, "expected Ident(), found Int(1)");
    let e = parse_err("datapack t; inline g(a:) {}");
    assert_eq!(e.diagnostic().pointer, "expected Ident(), found End()");
    let e = parse_err("datapack t; inline g(a: int b: int) {}");
    assert_eq!(e.kind(), ErrorKind::UnexpectedToken);
    assert_eq!(e.diagnostic().cause, "invalid token");
    assert_eq!(e.diagnostic().pointer, "expected End() or Sep(','), found Ident(\"b\")");
    let e = parse_err("datapack t; inline g(a: int; b: int) {}");
    assert_eq!(e.diagnostic().pointer, "expected End() or Sep(','), found Sep(';')");
    let e = parse_err("datapack t; inline g {}");
    assert_eq!(
        e.diagnostic().pointer,
        "expected Group<Parentheses>, found Group<CurlyBrackets>(...)"
    );
    assert_eq!(e.diagnostic().context.as_deref(), Some("inline declaration"));
    let e = parse_err("datapack t; inline g()");
    assert_eq!(e.diagnostic().pointer, "expected Group<CurlyBrackets>, found End()");
}

#[test]
fn a_function_needs_all_its_parts() {
    let e = parse_err("datapack t; function () {}");
    assert_eq!(e.kind(), ErrorKind::UnexpectedToken);
    assert_eq!(e.diagnostic().pointer, "expected Ident(), found Group<Parentheses>(...)");
    assert_eq!(e.diagnostic().context.as_deref(), Some("function declaration"));
    let e = parse_err("datapack t; function f {}");
    assert_eq!(
        e.diagnostic().pointer,
        "expected Group<Parentheses>, found Group<CurlyBrackets>(...)"
    );
    let e = parse_err("datapack t; function f()");
    assert_eq!(e.diagnostic().pointer, "expected Group<CurlyBrackets>, found End()");
    let e = parse_err("datapack t; function f() at player");
    assert_eq!(e.diagnostic().pointer, "expected Group<CurlyBrackets>, found End()");
    let e = parse_err("datapack t; function f() []");
    assert_eq!(
        e.diagnostic().pointer,
        "expected Group<CurlyBrackets>, found Group<Brackets>(...)"
    );
}

#[test]
fn function_arguments_are_sorted_by_arrow_and_colon() {
    let args = |src: &str| {
        let d = parse_ok(&format!("datapack t; function f({}) {{}}", src));
        let a = &d.functions[0].args;
        (
            names(&a.input).join(","),
            names(&a.output).join(","),
            a.objective.as_ref().map(|o| o.value.clone()),
        )
    };
    assert_eq!(args(""), ("".to_owned(), "".to_owned(), None));
    assert_eq!(args("a b c"), ("a,b,c".to_owned(), "".to_owned(), None));
    assert_eq!(args("-> x y"), ("".to_owned(), "x,y".to_owned(), None));
    assert_eq!(args("a -> x"), ("a".to_owned(), "x".to_owned(), None));
    assert_eq!(args(": obj"), ("".to_owned(), "".to_owned(), Some("obj".to_owned())));
    assert_eq!(args("a : obj"), ("a".to_owned(), "".to_owned(), Some("obj".to_owned())));
    assert_eq!(args("a, b -> 1 c"), ("a,b".to_owned(), "c".to_owned(), None));
    assert_eq!(args("a : obj -> "), ("a".to_owned(), "".to_owned(), Some("obj".to_owned())));
    assert_eq!(args("a - > b"), ("a,b".to_owned(), "".to_owned(), None));
}

#[test]
fn parse_fun_args_reads_a_group() {
    let tokens = tokens_of("(a -> b : c) (x : y z)");
    let good = tokens[0].as_group().unwrap();
    match parse_fun_args(good) {
        CompileResult::Pass(a) => {
            assert_eq!(names(&a.input), vec!["a"]);
            assert_eq!(names(&a.output), vec!["b"]);
            assert_eq!(a.objective.map(|o| o.value), Some("c".to_owned()));
            assert_eq!(a.parens, good.scope);
        }
        CompileResult::Fail(e) => panic!("unexpected failure: {:?}", e),
    }
    match parse_fun_args(tokens[1].as_group().unwrap()) {
        CompileResult::Fail(e) => {
            assert_eq!(e.kind(), ErrorKind::MultipleObjectives);
            assert_eq!(span(&e), (20, 21));
        }
        CompileResult::Pass(a) => panic!("expected a failure, found {:?}", a),
    }
}

#[test]
fn parse_inline_args_reads_a_group() {
    let tokens = tokens_of("(a: int, b: score)");
    match parse_inline_args(tokens[0].as_group().unwrap()) {
        CompileResult::Pass(args) => {
            assert_eq!(args.len(), 2);
            assert_eq!(args[1].name.value, "b");
            assert_eq!(args[1].ty, InlineArgType::Score);
        }
        CompileResult::Fail(e) => panic!("unexpected failure: {:?}", e),
    }
}

fn command_words(cmds: &[UnsafeCmd]) -> Vec<(Vec<String>, Option<char>)> {
    cmds.iter().map(|c| (words(&c.tokens), c.sep.map(|s| s.value))).collect()
}

fn arg_words(args: &[Arg]) -> Vec<(Vec<String>, Option<char>)> {
    args.iter().map(|c| (words(&c.tokens), c.sep.map(|s| s.value))).collect()
}

#[test]
fn unsafe_commands_are_split_at_semicolons() {
    let split = |src: &str| {
        let tokens = tokens_of(src);
        command_words(&split_unsafe_commands(tokens[0].as_group().unwrap()))
    };
    assert_eq!(split("{}"), vec![]);
    assert_eq!(split("{;}"), vec![]);
    assert_eq!(split("{;;;}"), vec![]);
    assert_eq!(split("{a}"), vec![(vec!["Ident(\"a\")".to_owned()], None)]);
    assert_eq!(split("{a;}"), vec![(vec!["Ident(\"a\")".to_owned()], Some(';'))]);
    assert_eq!(
        split("{a;;b 1}"),
        vec![
            (vec!["Ident(\"a\")".to_owned()], Some(';')),
            (vec!["Ident(\"b\")".to_owned(), "Int(1)".to_owned()], None),
        ]
    );
    assert_eq!(
        split("{a (b;c); d}"),
        vec![
            (vec!["Ident(\"a\")".to_owned(), "Group<Parentheses>(...)".to_owned()], Some(';')),
            (vec!["Ident(\"d\")".to_owned()], None),
        ]
    );
}

#[test]
fn call_arguments_are_split_at_commas() {
    let split = |src: &str| {
        let tokens = tokens_of(src);
        match split_call_args(tokens[0].as_group().unwrap()) {
            CompileResult::Pass(args) => Ok(arg_words(&args)),
            CompileResult::Fail(e) => Err((e.kind(), e.diagnostic().pointer.clone(), span(&e))),
        }
    };
    assert_eq!(split("()"), Ok(vec![]));
    assert_eq!(split("(a)"), Ok(vec![(vec!["Ident(\"a\")".to_owned()], None)]));
    assert_eq!(
        split("(a, 1 2)"),
        Ok(vec![
            (vec!["Ident(\"a\")".to_owned()], Some(',')),
            (vec!["Int(1)".to_owned(), "Int(2)".to_owned()], None),
        ])
    );
    assert_eq!(
        split("(,a)"),
        Err((ErrorKind::UnexpectedToken, "expected argument, found Sep(',')".to_owned(), (1, 2)))
    );
    assert_eq!(
        split("(a,,b)"),
        Err((ErrorKind::UnexpectedToken, "expected argument, found Sep(',')".to_owned(), (3, 4)))
    );
    assert_eq!(
        split("(a,)"),
        Err((ErrorKind::UnexpectedToken, "expected argument, found End()".to_owned(), (3, 4)))
    );
}

fn call_text(call: &Call) -> String {
    let args: Vec<String> = call.args.iter().map(|a| words(&a.tokens).join(" ")).collect();
    format!("{}({})", path_text(&call.path), args.join(", "))
}

fn outline(statements: &[Statement]) -> Vec<String> {
    statements
        .iter()
        .map(|s| match s {
            Statement::Unsafe(u) => format!("unsafe[{}]", u.commands.len()),
            Statement::Call(c) => call_text(c),
            Statement::Pipe(p) => format!("|{} {} {}", p.name.value, p.equals.value, call_text(&p.call)),
            Statement::If(i) => format!("if {} {{{}}}", call_text(&i.call), outline(&i.statements).join("; ")),
            Statement::At(a) => format!("at {:?}", a.loc),
        })
        .collect()
}

#[test]
fn parses_calls() {
    assert_eq!(outline(&body("foo()")), vec!["foo()"]);
    assert_eq!(
        outline(&body("foo(a, 1) ns:bar(\"x\")")),
        vec!["foo(Ident(\"a\"), Int(1))", "ns:bar(Str(\"x\"))"]
    );
    match &body("a:b(x y, z)")[0] {
        Statement::Call(c) => {
            assert_eq!(path_text(&c.path), "a:b");
            assert_eq!(c.args.len(), 2);
            assert_eq!(c.args[0].sep.map(|s| s.value), Some(','));
            assert_eq!(c.args[1].sep, None);
            assert_eq!(c.group.tokens.len(), 5);
        }
        other => panic!("expected a call, found {:?}", other),
    }
}

#[test]
fn a_call_needs_its_parentheses_and_its_arguments() {
    let e = body_err("foo bar()");
    assert_eq!(e.kind(), ErrorKind::UnexpectedToken);
    assert_eq!(e.diagnostic().pointer, "expected Group<Parentheses>, found Ident(\"bar\")");
    assert_eq!(e.diagnostic().context.as_deref(), Some("function call declaration"));
    let e = body_err("foo");
    assert_eq!(e.diagnostic().pointer, "expected Group<Parentheses>, found End()");
    let e = body_err("foo(a,,b)");
    assert_eq!(e.diagnostic().pointer, "expected argument, found Sep(',')");
}

#[test]
fn a_call_before_curly_brackets_guards_a_block() {
    assert_eq!(
        outline(&body("check(a) { run() unsafe { x } } after()")),
        vec!["if check(Ident(\"a\")) {run(); unsafe[1]}", "after()"]
    );
    assert_eq!(
        outline(&body("a() { b() { c() } }")),
        vec!["if a() {if b() {c()}}"]
    );
    let e = body_err("a() { b }");
    assert_eq!(e.diagnostic().pointer, "expected Group<Parentheses>, found End()");
}

#[test]
fn parses_pipes() {
    assert_eq!(outline(&body("| x = foo(1)")), vec!["|x = foo(Int(1))"]);
    match &body("| x = a:b() next()")[0] {
        Statement::Pipe(p) => {
            assert_eq!(p.symbol.value, '|');
            assert_eq!(p.name.value, "x");
            assert_eq!(p.equals.value, "=");
            assert_eq!(path_text(&p.call.path), "a:b");
        }
        other => panic!("expected a pipe, found {:?}", other),
    }
    assert_eq!(outline(&body("| x = a() b()")), vec!["|x = a()", "b()"]);
}

#[test]
fn a_pipe_follows_its_pattern() {
    let e = body_err("| 1 = foo()");
    assert_eq!(e.kind(), ErrorKind::UnexpectedToken);
    assert_eq!(e.diagnostic().pointer, "expected Ident(), found Int(1)");
    assert_eq!(e.diagnostic().context.as_deref(), Some("pipe declaration"));
    let e = body_err("| x == foo()");
    assert_eq!(e.diagnostic().pointer, "expected Symbol(\"=\"), found Symbol(\"==\")");
    let e = body_err("| x = 1");
    assert_eq!(e.diagnostic().pointer, "expected Ident(), found Int(1)");
    assert_eq!(e.diagnostic().context.as_deref(), Some("function call declaration"));
    let e = body_err("| x = foo");
    assert_eq!(e.diagnostic().pointer, "expected Group<Parentheses>, found End()");
    let e = body_err("|");
    assert_eq!(e.diagnostic().pointer, "expected Ident(), found End()");
}

#[test]
fn parses_at_modifiers_in_a_body() {
    assert_eq!(outline(&body("at players foo()")), vec!["at Players", "foo()"]);
    let e = body_err("at nowhere");
    assert_eq!(e.kind(), ErrorKind::InvalidLocation);
    assert_eq!(e.diagnostic().context.as_deref(), Some("at modifier"));
    let e = body_err("at 1");
    assert_eq!(e.kind(), ErrorKind::UnexpectedToken);
    assert_eq!(e.diagnostic().pointer, "expected Ident(), found Int(1)");
}

#[test]
fn an_unsafe_block_needs_curly_brackets() {
    let e = body_err("unsafe (a)");
    assert_eq!(e.kind(), ErrorKind::UnexpectedToken);
    assert_eq!(
        e.diagnostic().pointer,
        "expected Group<CurlyBrackets>, found Group<Parentheses>(...)"
    );
    assert_eq!(e.diagnostic().context.as_deref(), Some("unsafe block declaration"));
    let e = body_err("unsafe");
    assert_eq!(e.diagnostic().pointer, "expected Group<CurlyBrackets>, found End()");
}

#[test]
fn tokens_that_begin_no_statement_are_passed_over() {
    assert_eq!(outline(&body("1 \"two\" ; , foo() -> [x] {y}")), vec!["foo()"]);
    assert!(body("").is_empty());
}

#[test]
fn parse_statements_reads_a_token_sequence() {
    let tokens = tokens_of("a() unsafe { b; } at any");
    match parse_statements(&tokens) {
        CompileResult::Pass(s) => assert_eq!(outline(&s), vec!["a()", "unsafe[1]", "at Any"]),
        CompileResult::Fail(e) => panic!("unexpected failure: {:?}", e),
    }
}

#[test]
fn the_sub_parsers_read_behind_their_keyword() {
    let tokens = tokens_of("dummy kills; f() {} g(a: int) {}");
    let keyword = |text: &str| Ident { value: text.to_owned(), scope: tokens[0].scope() };
    let mut parser = Parser::new(tokens_of("dummy kills; f() {} g(a: int) {}"));
    match parser.parse_scoreboard(keyword("scoreboard")) {
        CompileResult::Pass(s) => assert_eq!(s.name.value, "kills"),
        CompileResult::Fail(e) => panic!("unexpected failure: {:?}", e),
    }
    assert_eq!(parser.tokens.index, 3);
    match parser.parse_function(keyword("function")) {
        CompileResult::Pass(f) => assert_eq!(f.name.value, "f"),
        CompileResult::Fail(e) => panic!("unexpected failure: {:?}", e),
    }
    assert_eq!(parser.tokens.index, 6);
    match parser.parse_inline(keyword("inline")) {
        CompileResult::Pass(i) => assert_eq!(i.name.value, "g"),
        CompileResult::Fail(e) => panic!("unexpected failure: {:?}", e),
    }
    assert_eq!(parser.tokens.index, 9);
    assert!(parser.tokens.current().is_end());
}

#[test]
fn builders_start_empty() {
    let name = Ident { value: "n".to_owned(), scope: tokens_of("n")[0].scope() };
    let d = Datapack::empty(name);
    assert_eq!(d.name.value, "n");
    assert!(d.functions.is_empty() && d.scoreboards.is_empty() && d.inlines.is_empty());
    let c = UnsafeCmd::new();
    assert!(c.tokens.is_empty() && c.sep.is_none());
    let a = Arg::new();
    assert!(a.tokens.is_empty() && a.sep.is_none());
}

#[test]
fn paths_grow_by_separator_and_part() {
    let tokens = tokens_of("a:b");
    let mut path = Path::new(tokens[0].as_ident().unwrap().clone());
    assert_eq!(path_text(&path), "a");
    path.push_part(*tokens[1].as_sep().unwrap(), tokens[2].as_ident().unwrap().clone());
    assert_eq!(path_text(&path), "a:b");
    assert_eq!(path.parts.len(), 2);
    assert_eq!(path.seps.len(), 1);
}

#[test]
fn words_name_locations_and_types() {
    let tokens = tokens_of("entities score nothing");
    let word = |i: usize| tokens[i].as_ident().unwrap();
    assert!(matches!(AtLoc::parse(word(0), None, None), CompileResult::Pass(AtLoc::Entities)));
    assert!(matches!(
        InlineArgType::parse(word(1), None, None),
        CompileResult::Pass(InlineArgType::Score)
    ));
    match AtLoc::parse(word(2), Some("here"), None) {
        CompileResult::Fail(e) => {
            assert_eq!(e.kind(), ErrorKind::InvalidLocation);
            assert_eq!(span(&e), (15, 22));
            assert_eq!(e.diagnostic().context.as_deref(), Some("here"));
        }
        CompileResult::Pass(l) => panic!("expected a failure, found {:?}", l),
    }
    match InlineArgType::parse(word(2), None, None) {
        CompileResult::Fail(e) => assert_eq!(e.kind(), ErrorKind::InvalidArgType),
        CompileResult::Pass(l) => panic!("expected a failure, found {:?}", l),
    }
}
