//! The parser: recursive descent over a token sequence, up to the program
//! tree or the first syntactic failure.

use vstd::prelude::*;
use crate::ast::{
    lemma_statements_view_push,
    lemma_views_push,
    spec_at_loc,
    spec_empty_datapack,
    spec_inline_arg_type,
    spec_invalid_arg_type,
    spec_invalid_location,
    statements_view,
    views,
    Arg,
    At,
    AtLoc,
    AtV,
    Call,
    CallV,
    Datapack,
    DatapackV,
    FunArgs,
    FunArgsV,
    Function,
    FunctionV,
    If,
    IfV,
    Inline,
    InlineArg,
    InlineArgType,
    InlineArgV,
    InlineV,
    Pipe,
    PipeV,
    RunV,
    Scoreboard,
    ScoreboardV,
    Statement,
    StatementV,
    Unsafe,
    UnsafeCmd,
    UnsafeV,
};
use crate::errors::{
    error,
    CompileErrV,
    CompileResult,
    DiagnosticV,
    ErrorInfo,
    ErrorKind,
    Help,
    HelpV,
};
use crate::parser_laws::{lemma_parse_fails_syntactically, syntactic_error};
use crate::span::SrcScope;
use crate::token_stream::{
    advance,
    lemma_path_end,
    path_end,
    read_path,
    spec_path,
    TokenIter,
};
use crate::tokens::{
    clone_token,
    lemma_tokens_view_push,
    spec_debug_form,
    spec_expected_group,
    spec_expected_sep,
    spec_expected_word,
    spec_invalid,
    stream_ok,
    tokens_view,
    tree_ok,
    Delimiter,
    Group,
    GroupV,
    Ident,
    Sep,
    Symbol,
    TextV,
    Token,
    TokenV,
};

verus! {

/// The outcome of parsing one construct: what was read and where the cursor
/// then stands, or the failure.
pub ghost enum Parsed<T> {
    Done(T, int),
    Fail(CompileErrV),
}

/// The failure that reports an identifier behind the objective of an
/// argument list.
pub open spec fn spec_multiple_objectives(ident: TextV) -> CompileErrV {
    CompileErrV::Error(
        DiagnosticV {
            kind: ErrorKind::MultipleObjectives,
            scope: ident.scope,
            cause: "illegal identifier, only 1 identifier after the colon"@,
            pointer: "an objective has already been defined"@,
            context: Some("function args declaration"@),
            help: None,
        },
    )
}

/// An argument list in which nothing was read yet.
pub open spec fn spec_no_args(parens: SrcScope) -> FunArgsV {
    FunArgsV {
        parens,
        input: Seq::empty(),
        arrow: None,
        output: Seq::empty(),
        colon: None,
        objective: None,
    }
}

/// What one token adds to an argument list. An identifier is the objective
/// once a colon was seen, an output once an arrow was seen, and an input
/// before; a second identifier behind the colon is a failure. An arrow and a
/// colon are remembered by their spans. Any other token changes nothing.
pub open spec fn scan_arg(st: FunArgsV, t: TokenV) -> Result<FunArgsV, CompileErrV> {
    if t is Ident {
        let e = t->Ident_0;
        if st.colon is Some {
            if st.objective is Some {
                Err(spec_multiple_objectives(e))
            } else {
                Ok(
                    FunArgsV {
                        parens: st.parens,
                        input: st.input,
                        arrow: st.arrow,
                        output: st.output,
                        colon: st.colon,
                        objective: Some(e),
                    },
                )
            }
        } else if st.arrow is Some {
            Ok(
                FunArgsV {
                    parens: st.parens,
                    input: st.input,
                    arrow: st.arrow,
                    output: st.output.push(e),
                    colon: st.colon,
                    objective: st.objective,
                },
            )
        } else {
            Ok(
                FunArgsV {
                    parens: st.parens,
                    input: st.input.push(e),
                    arrow: st.arrow,
                    output: st.output,
                    colon: st.colon,
                    objective: st.objective,
                },
            )
        }
    } else if t.is_symbol_w("->"@) {
        Ok(
            FunArgsV {
                parens: st.parens,
                input: st.input,
                arrow: Some(t.scope()),
                output: st.output,
                colon: st.colon,
                objective: st.objective,
            },
        )
    } else if t.is_sep_w(':') {
        Ok(
            FunArgsV {
                parens: st.parens,
                input: st.input,
                arrow: st.arrow,
                output: st.output,
                colon: Some(t.scope()),
                objective: st.objective,
            },
        )
    } else {
        Ok(st)
    }
}

/// The argument list read from the first `n` tokens of `toks`, or the first
/// failure among them.
pub open spec fn scan_args(toks: Seq<TokenV>, n: nat, parens: SrcScope) -> Result<
    FunArgsV,
    CompileErrV,
>
    decreases n,
{
    if n == 0 {
        Ok(spec_no_args(parens))
    } else {
        match scan_args(toks, (n - 1) as nat, parens) {
            Ok(st) => scan_arg(st, toks[n - 1]),
            Err(e) => Err(e),
        }
    }
}

/// The argument list that the group `g` holds between its parentheses.
pub open spec fn spec_fun_args(g: GroupV) -> Result<FunArgsV, CompileErrV> {
    scan_args(g.tokens, (g.tokens.len() - 1) as nat, g.scope)
}

/// A failure among the first tokens is the failure of the whole list.
pub proof fn lemma_scan_args_fails(toks: Seq<TokenV>, m: nat, n: nat, parens: SrcScope)
    requires
        m <= n,
        scan_args(toks, m, parens) is Err,
    ensures
        scan_args(toks, n, parens) == scan_args(toks, m, parens),
    decreases n - m,
{
    if m < n {
        lemma_scan_args_fails(toks, m, (n - 1) as nat, parens);
    }
}

/// What `scoreboard` is followed by: the objective, the name and a
/// semicolon, in that order.
pub open spec fn spec_parse_scoreboard(toks: Seq<TokenV>, pos: int, keyword: TextV) -> Parsed<
    ScoreboardV,
> {
    let context = Some("scoreboard declaration"@);
    let t0 = toks[pos];
    let pos1 = advance(toks, pos);
    let t1 = toks[pos1];
    let pos2 = advance(toks, pos1);
    let t2 = toks[pos2];
    let pos3 = advance(toks, pos2);
    if !(t0 is Ident) {
        Parsed::Fail(spec_invalid(t0, "Ident()"@, context, None))
    } else if !(t1 is Ident) {
        Parsed::Fail(spec_invalid(t1, "Ident()"@, context, None))
    } else if !t2.is_sep_w(';') {
        Parsed::Fail(spec_invalid(t2, spec_expected_sep(';'), context, None))
    } else {
        Parsed::Done(
            ScoreboardV {
                keyword,
                objective: t0->Ident_0,
                name: t1->Ident_0,
                semi_colon: t2->Sep_0.scope,
            },
            pos3,
        )
    }
}

/// What `function` is followed by: the name, the argument list between
/// parentheses, optionally `at` and a location, and the body between curly
/// brackets.
pub open spec fn spec_parse_function(toks: Seq<TokenV>, pos: int, keyword: TextV) -> Parsed<
    FunctionV,
> {
    let context = Some("function declaration"@);
    let t0 = toks[pos];
    let pos1 = advance(toks, pos);
    let t1 = toks[pos1];
    let pos2 = advance(toks, pos1);
    let t2 = toks[pos2];
    let pos3 = advance(toks, pos2);
    let t3 = toks[pos3];
    let pos4 = advance(toks, pos3);
    let t4 = toks[pos4];
    let pos5 = advance(toks, pos4);
    if !(t0 is Ident) {
        Parsed::Fail(spec_invalid(t0, "Ident()"@, context, None))
    } else if !t1.is_group_w(Delimiter::Parentheses) {
        Parsed::Fail(spec_invalid(t1, spec_expected_group(Delimiter::Parentheses), context, None))
    } else {
        match spec_fun_args(t1->Group_0) {
            Err(e) => Parsed::Fail(e),
            Ok(args) => {
                if t2.is_ident_w("at"@) {
                    if !(t3 is Ident) {
                        Parsed::Fail(spec_invalid(t3, "Ident()"@, context, None))
                    } else {
                        match spec_at_loc(t3->Ident_0.value) {
                            None => Parsed::Fail(
                                spec_invalid_location(t3->Ident_0, context, None),
                            ),
                            Some(loc) => {
                                if !t4.is_group_w(Delimiter::CurlyBrackets) {
                                    Parsed::Fail(
                                        spec_invalid(
                                            t4,
                                            spec_expected_group(Delimiter::CurlyBrackets),
                                            context,
                                            None,
                                        ),
                                    )
                                } else {
                                    Parsed::Done(
                                        FunctionV {
                                            keyword,
                                            name: t0->Ident_0,
                                            args,
                                            block: t4->Group_0,
                                            at: Some(
                                                AtV {
                                                    ident: t2->Ident_0,
                                                    loc,
                                                    loc_scope: t3->Ident_0.scope,
                                                },
                                            ),
                                        },
                                        pos5,
                                    )
                                }
                            },
                        }
                    }
                } else if !t2.is_group_w(Delimiter::CurlyBrackets) {
                    Parsed::Fail(
                        spec_invalid(
                            t2,
                            spec_expected_group(Delimiter::CurlyBrackets),
                            context,
                            None,
                        ),
                    )
                } else {
                    Parsed::Done(
                        FunctionV {
                            keyword,
                            name: t0->Ident_0,
                            args,
                            block: t2->Group_0,
                            at: None,
                        },
                        pos3,
                    )
                }
            },
        }
    }
}

/// Reads the argument list of a function from the group between its
/// parentheses.
pub fn parse_fun_args(group: &Group) -> (r: CompileResult<FunArgs>)
    requires
        stream_ok(group@.tokens),
    ensures
        match spec_fun_args(group@) {
            Ok(v) => r is Pass && r->Pass_0@ == v,
            Err(e) => r is Fail && r->Fail_0@ == e,
        },
{
    let mut args = FunArgs {
        parens: group.scope,
        input: Vec::new(),
        arrow: None,
        output: Vec::new(),
        colon: None,
        objective: None,
    };
    let ghost toks = group@.tokens;
    let n = group.tokens.len() - 1;
    let mut i: usize = 0;
    assert(args@ =~= spec_no_args(group.scope)) by {
        assert(views(args.input@) =~= Seq::empty());
        assert(views(args.output@) =~= Seq::empty());
    }
    while i < n
        invariant
            i <= n,
            n == group.tokens.len() - 1,
            toks == tokens_view(group.tokens@),
            args.parens == group.scope,
            scan_args(toks, i as nat, group.scope) == Ok::<FunArgsV, CompileErrV>(args@),
        decreases n - i,
    {
        let token = &group.tokens[i];
        let ghost before = args@;
        assert(toks[i as int] == token@);
        match token {
            Token::Ident(ident) => {
                if args.colon.is_some() {
                    if args.objective.is_some() {
                        proof {
                            assert(scan_args(toks, (i + 1) as nat, group.scope) is Err);
                            lemma_scan_args_fails(toks, (i + 1) as nat, n as nat, group.scope);
                        }
                        return CompileResult::Fail(
                            error(
                                ident.scope,
                                ErrorInfo {
                                    kind: ErrorKind::MultipleObjectives,
                                    cause: "illegal identifier, only 1 identifier after the colon",
                                    pointer: "an objective has already been defined",
                                    context: Some("function args declaration"),
                                    help: None,
                                },
                            ),
                        );
                    }
                    args.objective = Some(ident.clone());
                } else if args.arrow.is_some() {
                    proof {
                        lemma_views_push(args.output@, *ident);
                    }
                    args.output.push(ident.clone());
                } else {
                    proof {
                        lemma_views_push(args.input@, *ident);
                    }
                    args.input.push(ident.clone());
                }
            },
            _ => {
                if let Some(symbol) = token.as_symbol_w("->") {
                    args.arrow = Some(symbol.scope);
                } else if let Some(sep) = token.as_sep_w(':') {
                    args.colon = Some(sep.scope);
                }
            },
        }
        assert(scan_arg(before, toks[i as int]) == Ok::<FunArgsV, CompileErrV>(args@));
        i += 1;
    }
    CompileResult::Pass(args)
}

/// The parser of one token sequence.
#[derive(Debug)]
pub struct Parser {
    pub tokens: TokenIter,
}

impl Parser {
    /// The cursor stands within a sequence that, like the inner sequence of
    /// every group in it, ends with exactly one end marker.
    pub open spec fn wf(&self) -> bool {
        &&& self.tokens.wf()
        &&& tree_ok(self.tokens.toks())
    }

    /// A parser at the first token of `tokens`.
    pub fn new(tokens: Vec<Token>) -> (r: Self)
        requires
            tree_ok(tokens_view(tokens@)),
        ensures
            r.wf(),
            r.tokens.tokens == tokens,
            r.tokens.index == 0,
    {
        Parser { tokens: TokenIter::new(tokens) }
    }

    /// Reads a scoreboard declaration behind its keyword.
    pub fn parse_scoreboard(&mut self, keyword: Ident) -> (r: CompileResult<Scoreboard>)
        requires
            old(self).wf(),
        ensures
            final(self).wf(),
            final(self).tokens.tokens == old(self).tokens.tokens,
            final(self).tokens.index >= old(self).tokens.index,
            match spec_parse_scoreboard(
                old(self).tokens.toks(),
                old(self).tokens.index as int,
                keyword@,
            ) {
                Parsed::Done(v, p) => r is Pass && r->Pass_0@ == v && final(self).tokens.index == p,
                Parsed::Fail(e) => r is Fail && r->Fail_0@ == e,
            },
    {
        let objective = match self.tokens.next().expect_ident(Some("scoreboard declaration"), None) {
            CompileResult::Pass(v) => v,
            CompileResult::Fail(e) => {
                return CompileResult::Fail(e);
            },
        };
        let name = match self.tokens.next().expect_ident(Some("scoreboard declaration"), None) {
            CompileResult::Pass(v) => v,
            CompileResult::Fail(e) => {
                return CompileResult::Fail(e);
            },
        };
        let semi_colon = match self.tokens.next().expect_sep_w(
            ';',
            Some("scoreboard declaration"),
            None,
        ) {
            CompileResult::Pass(v) => v.scope,
            CompileResult::Fail(e) => {
                return CompileResult::Fail(e);
            },
        };
        CompileResult::Pass(Scoreboard { keyword, objective, name, semi_colon })
    }

    /// Reads a function declaration behind its keyword.
    pub fn parse_function(&mut self, keyword: Ident) -> (r: CompileResult<Function>)
        requires
            old(self).wf(),
        ensures
            final(self).wf(),
            final(self).tokens.tokens == old(self).tokens.tokens,
            final(self).tokens.index >= old(self).tokens.index,
            match spec_parse_function(
                old(self).tokens.toks(),
                old(self).tokens.index as int,
                keyword@,
            ) {
                Parsed::Done(v, p) => r is Pass && r->Pass_0@ == v && final(self).tokens.index == p,
                Parsed::Fail(e) => r is Fail && r->Fail_0@ == e,
            },
    {
        let ghost toks = self.tokens.toks();
        let name = match self.tokens.next().expect_ident(Some("function declaration"), None) {
            CompileResult::Pass(v) => v,
            CompileResult::Fail(e) => {
                return CompileResult::Fail(e);
            },
        };
        let ghost pos1 = self.tokens.index as int;
        let group = match self.tokens.next().expect_group_w(
            Delimiter::Parentheses,
            Some("function declaration"),
            None,
        ) {
            CompileResult::Pass(v) => v,
            CompileResult::Fail(e) => {
                return CompileResult::Fail(e);
            },
        };
        assert(toks[pos1] is Group);
        assert(tree_ok(toks[pos1]->Group_0.tokens));
        let args = match parse_fun_args(&group) {
            CompileResult::Pass(v) => v,
            CompileResult::Fail(e) => {
                return CompileResult::Fail(e);
            },
        };
        let mut at: Option<At> = None;
        let first = self.tokens.next();
        let block = match first.as_ident_w("at") {
            Some(ident) => {
                let ident = ident.clone();
                let loc_ident = match self.tokens.next().expect_ident(
                    Some("function declaration"),
                    None,
                ) {
                    CompileResult::Pass(v) => v,
                    CompileResult::Fail(e) => {
                        return CompileResult::Fail(e);
                    },
                };
                let loc = match AtLoc::parse(&loc_ident, Some("function declaration"), None) {
                    CompileResult::Pass(v) => v,
                    CompileResult::Fail(e) => {
                        return CompileResult::Fail(e);
                    },
                };
                at = Some(At { ident, loc, loc_scope: loc_ident.scope });
                match self.tokens.next().expect_group_w(
                    Delimiter::CurlyBrackets,
                    Some("function declaration"),
                    None,
                ) {
                    CompileResult::Pass(v) => v,
                    CompileResult::Fail(e) => {
                        return CompileResult::Fail(e);
                    },
                }
            },
            None => {
                match first.expect_group_w(
                    Delimiter::CurlyBrackets,
                    Some("function declaration"),
                    None,
                ) {
                    CompileResult::Pass(v) => v,
                    CompileResult::Fail(e) => {
                        return CompileResult::Fail(e);
                    },
                }
            },
        };
        CompileResult::Pass(Function { keyword, name, args, block, at })
    }
}

/// The failure that reports the token `t` behind an inline argument, where
/// a comma or the end of the list was asked for.
pub open spec fn spec_bad_arg_end(t: TokenV) -> CompileErrV {
    CompileErrV::Error(
        DiagnosticV {
            kind: ErrorKind::UnexpectedToken,
            scope: t.scope(),
            cause: "invalid token"@,
            pointer: "expected End() or Sep(','), found "@ + spec_debug_form(t),
            context: Some("inline argument declaration"@),
            help: None,
        },
    )
}

/// The inline arguments from `pos` on, behind those of `acc`: each is a name,
/// a colon and a type, and a comma stands between two of them; a comma
/// before the end of the list is accepted.
pub open spec fn spec_inline_args(toks: Seq<TokenV>, pos: int, acc: Seq<InlineArgV>) -> Result<
    Seq<InlineArgV>,
    CompileErrV,
>
    decreases toks.len() - pos,
{
    if pos < 0 || pos >= toks.len() || toks[pos] is End {
        Ok(acc)
    } else {
        let context = Some("inline argument declaration"@);
        let t0 = toks[pos];
        let t1 = toks[pos + 1];
        let t2 = toks[pos + 2];
        let t3 = toks[pos + 3];
        if !(t0 is Ident) {
            Err(spec_invalid(t0, "Ident()"@, context, None))
        } else if !t1.is_sep_w(':') {
            Err(spec_invalid(t1, spec_expected_sep(':'), context, None))
        } else if !(t2 is Ident) {
            Err(spec_invalid(t2, "Ident()"@, context, None))
        } else {
            match spec_inline_arg_type(t2->Ident_0.value) {
                None => Err(spec_invalid_arg_type(t2->Ident_0, context, None)),
                Some(ty) => {
                    if t3 is End {
                        Ok(
                            acc.push(
                                InlineArgV {
                                    name: t0->Ident_0,
                                    colon: t1->Sep_0.scope,
                                    ty,
                                    ty_scope: t2->Ident_0.scope,
                                    sep: None,
                                },
                            ),
                        )
                    } else if t3.is_sep_w(',') {
                        let arg = InlineArgV {
                            name: t0->Ident_0,
                            colon: t1->Sep_0.scope,
                            ty,
                            ty_scope: t2->Ident_0.scope,
                            sep: Some(t3->Sep_0),
                        };
                        if pos + 4 <= toks.len() {
                            spec_inline_args(toks, pos + 4, acc.push(arg))
                        } else {
                            Ok(acc.push(arg))
                        }
                    } else {
                        Err(spec_bad_arg_end(t3))
                    }
                },
            }
        }
    }
}

/// What `inline` is followed by: the name, the arguments between
/// parentheses, and the body between curly brackets.
pub open spec fn spec_parse_inline(toks: Seq<TokenV>, pos: int, keyword: TextV) -> Parsed<InlineV> {
    let context = Some("inline declaration"@);
    let t0 = toks[pos];
    let pos1 = advance(toks, pos);
    let t1 = toks[pos1];
    let pos2 = advance(toks, pos1);
    let t2 = toks[pos2];
    let pos3 = advance(toks, pos2);
    if !(t0 is Ident) {
        Parsed::Fail(spec_invalid(t0, "Ident()"@, context, None))
    } else if !t1.is_group_w(Delimiter::Parentheses) {
        Parsed::Fail(spec_invalid(t1, spec_expected_group(Delimiter::Parentheses), context, None))
    } else {
        match spec_inline_args(t1->Group_0.tokens, 0, Seq::empty()) {
            Err(e) => Parsed::Fail(e),
            Ok(args) => {
                if !t2.is_group_w(Delimiter::CurlyBrackets) {
                    Parsed::Fail(
                        spec_invalid(
                            t2,
                            spec_expected_group(Delimiter::CurlyBrackets),
                            context,
                            None,
                        ),
                    )
                } else {
                    Parsed::Done(
                        InlineV {
                            keyword,
                            name: t0->Ident_0,
                            args,
                            parens: t1->Group_0.scope,
                            block: t2->Group_0,
                        },
                        pos3,
                    )
                }
            },
        }
    }
}

/// Reads the arguments of an inline declaration from the group between its
/// parentheses.
pub fn parse_inline_args(group: &Group) -> (r: CompileResult<Vec<InlineArg>>)
    requires
        stream_ok(group@.tokens),
    ensures
        match spec_inline_args(group@.tokens, 0, Seq::empty()) {
            Ok(v) => r is Pass && views(r->Pass_0@) == v,
            Err(e) => r is Fail && r->Fail_0@ == e,
        },
{
    let ghost toks = group@.tokens;
    let len = group.tokens.len();
    let mut args: Vec<InlineArg> = Vec::new();
    let mut pos: usize = 0;
    assert(views(args@) =~= Seq::empty());
    loop
        invariant
            pos < len,
            len == group.tokens.len(),
            toks == tokens_view(group.tokens@),
            stream_ok(toks),
            spec_inline_args(toks, 0, Seq::empty()) == spec_inline_args(
                toks,
                pos as int,
                views(args@),
            ),
        decreases len - pos,
    {
        let t0 = &group.tokens[pos];
        assert(toks[pos as int] == t0@);
        if t0.is_end() {
            return CompileResult::Pass(args);
        }
        let name = match t0.expect_ident(Some("inline argument declaration"), None) {
            CompileResult::Pass(v) => v,
            CompileResult::Fail(e) => {
                return CompileResult::Fail(e);
            },
        };
        let t1 = &group.tokens[pos + 1];
        assert(toks[pos + 1] == t1@);
        let colon = match t1.expect_sep_w(':', Some("inline argument declaration"), None) {
            CompileResult::Pass(v) => v,
            CompileResult::Fail(e) => {
                return CompileResult::Fail(e);
            },
        };
        let t2 = &group.tokens[pos + 2];
        assert(toks[pos + 2] == t2@);
        let ty_ident = match t2.expect_ident(Some("inline argument declaration"), None) {
            CompileResult::Pass(v) => v,
            CompileResult::Fail(e) => {
                return CompileResult::Fail(e);
            },
        };
        let ty = match InlineArgType::parse(&ty_ident, Some("inline argument declaration"), None) {
            CompileResult::Pass(v) => v,
            CompileResult::Fail(e) => {
                return CompileResult::Fail(e);
            },
        };
        let t3 = &group.tokens[pos + 3];
        assert(toks[pos + 3] == t3@);
        let ghost before = args@;
        if t3.is_end() {
            let arg = InlineArg { name, colon: colon.scope, ty, ty_scope: ty_ident.scope, sep: None };
            proof {
                lemma_views_push(before, arg);
            }
            args.push(arg);
            return CompileResult::Pass(args);
        }
        match t3.as_sep_w(',') {
            Some(sep) => {
                let arg = InlineArg {
                    name,
                    colon: colon.scope,
                    ty,
                    ty_scope: ty_ident.scope,
                    sep: Some(*sep),
                };
                proof {
                    lemma_views_push(before, arg);
                }
                args.push(arg);
                pos += 4;
            },
            None => {
                let mut pointer = "expected End() or Sep(','), found ".to_owned();
                pointer.append(t3.debug_form().as_str());
                return CompileResult::Fail(
                    error(
                        t3.scope(),
                        ErrorInfo {
                            kind: ErrorKind::UnexpectedToken,
                            cause: "invalid token",
                            pointer: pointer.as_str(),
                            context: Some("inline argument declaration"),
                            help: None,
                        },
                    ),
                );
            },
        }
    }
}

/// What was split off a run of raw tokens so far: the runs that a separator
/// ended, and the tokens behind the last separator.
pub ghost struct SplitV {
    pub done: Seq<RunV>,
    pub run: Seq<TokenV>,
}

/// The first `n` tokens of `toks`, split at every semicolon. A semicolon
/// ends the run before it; one that has no token before it is dropped.
pub open spec fn split_commands(toks: Seq<TokenV>, n: nat) -> SplitV
    decreases n,
{
    if n == 0 {
        SplitV { done: Seq::empty(), run: Seq::empty() }
    } else {
        let st = split_commands(toks, (n - 1) as nat);
        let t = toks[n - 1];
        if t.is_sep_w(';') {
            if st.run.len() > 0 {
                SplitV {
                    done: st.done.push(RunV { tokens: st.run, sep: Some(t->Sep_0) }),
                    run: Seq::empty(),
                }
            } else {
                st
            }
        } else {
            SplitV { done: st.done, run: st.run.push(t) }
        }
    }
}

/// The raw commands of an `unsafe` block: its tokens split at every
/// semicolon. The last command needs no semicolon behind it.
pub open spec fn spec_commands(g: GroupV) -> Seq<RunV> {
    let st = split_commands(g.tokens, (g.tokens.len() - 1) as nat);
    if st.run.len() > 0 {
        st.done.push(RunV { tokens: st.run, sep: None })
    } else {
        st.done
    }
}

/// The first `n` tokens of `toks`, split at every comma. A comma ends the
/// argument before it, which must hold a token.
pub open spec fn split_args(toks: Seq<TokenV>, n: nat) -> Result<SplitV, CompileErrV>
    decreases n,
{
    if n == 0 {
        Ok(SplitV { done: Seq::empty(), run: Seq::empty() })
    } else {
        match split_args(toks, (n - 1) as nat) {
            Err(e) => Err(e),
            Ok(st) => {
                let t = toks[n - 1];
                if t.is_sep_w(',') {
                    if st.run.len() > 0 {
                        Ok(
                            SplitV {
                                done: st.done.push(RunV { tokens: st.run, sep: Some(t->Sep_0) }),
                                run: Seq::empty(),
                            },
                        )
                    } else {
                        Err(
                            spec_invalid(
                                t,
                                "argument"@,
                                Some("function call declaration"@),
                                None,
                            ),
                        )
                    }
                } else {
                    Ok(SplitV { done: st.done, run: st.run.push(t) })
                }
            },
        }
    }
}

/// A failure among the first tokens is the failure of the whole split.
pub proof fn lemma_split_args_fails(toks: Seq<TokenV>, m: nat, n: nat)
    requires
        m <= n,
        split_args(toks, m) is Err,
    ensures
        split_args(toks, n) == split_args(toks, m),
    decreases n - m,
{
    if m < n {
        lemma_split_args_fails(toks, m, (n - 1) as nat);
    }
}

/// The arguments of a call: the tokens between its parentheses, split at
/// every comma. No argument may be empty; nothing between the parentheses is
/// no argument at all.
pub open spec fn spec_call_args(g: GroupV) -> Result<Seq<RunV>, CompileErrV> {
    match split_args(g.tokens, (g.tokens.len() - 1) as nat) {
        Err(e) => Err(e),
        Ok(st) => {
            if st.run.len() > 0 {
                Ok(st.done.push(RunV { tokens: st.run, sep: None }))
            } else if st.done.len() == 0 {
                Ok(Seq::empty())
            } else {
                Err(
                    spec_invalid(
                        g.tokens.last(),
                        "argument"@,
                        Some("function call declaration"@),
                        None,
                    ),
                )
            }
        },
    }
}

/// A call whose path begins with the identifier `first`, read just before
/// `pos`: the rest of the path, then the arguments between parentheses.
pub open spec fn spec_call(toks: Seq<TokenV>, first: TextV, pos: int) -> Parsed<CallV> {
    let q = path_end(toks, pos);
    let g = toks[q];
    if !g.is_group_w(Delimiter::Parentheses) {
        Parsed::Fail(
            spec_invalid(
                g,
                spec_expected_group(Delimiter::Parentheses),
                Some("function call declaration"@),
                None,
            ),
        )
    } else {
        match spec_call_args(g->Group_0) {
            Err(e) => Parsed::Fail(e),
            Ok(args) => Parsed::Done(
                CallV { path: spec_path(toks, first, pos), group: g->Group_0, args },
                q + 1,
            ),
        }
    }
}

/// An `unsafe` block: the keyword at `pos`, then the raw commands between
/// curly brackets.
pub open spec fn spec_unsafe_statement(toks: Seq<TokenV>, pos: int) -> Parsed<StatementV> {
    let t = toks[pos];
    let u = toks[pos + 1];
    if !u.is_group_w(Delimiter::CurlyBrackets) {
        Parsed::Fail(
            spec_invalid(
                u,
                spec_expected_group(Delimiter::CurlyBrackets),
                Some("unsafe block declaration"@),
                None,
            ),
        )
    } else {
        Parsed::Done(
            StatementV::Unsafe(
                UnsafeV {
                    ident: t->Ident_0,
                    block: u->Group_0,
                    commands: spec_commands(u->Group_0),
                },
            ),
            pos + 2,
        )
    }
}

/// An `at` modifier: the keyword at `pos`, then a location.
pub open spec fn spec_at_statement(toks: Seq<TokenV>, pos: int) -> Parsed<StatementV> {
    let t = toks[pos];
    let u = toks[pos + 1];
    if !(u is Ident) {
        Parsed::Fail(spec_invalid(u, "Ident()"@, Some("at modifier"@), None))
    } else {
        match spec_at_loc(u->Ident_0.value) {
            None => Parsed::Fail(spec_invalid_location(u->Ident_0, Some("at modifier"@), None)),
            Some(loc) => Parsed::Done(
                StatementV::At(AtV { ident: t->Ident_0, loc, loc_scope: u->Ident_0.scope }),
                pos + 2,
            ),
        }
    }
}

/// A pipe: `|` at `pos`, then a name, `=` and a call.
pub open spec fn spec_pipe_statement(toks: Seq<TokenV>, pos: int) -> Parsed<StatementV> {
    let context = Some("pipe declaration"@);
    let t = toks[pos];
    let u = toks[pos + 1];
    let eq = toks[pos + 2];
    let callee = toks[pos + 3];
    if !(u is Ident) {
        Parsed::Fail(spec_invalid(u, "Ident()"@, context, None))
    } else if !eq.is_symbol_w("="@) {
        Parsed::Fail(spec_invalid(eq, "Symbol(\"=\")"@, context, None))
    } else if !(callee is Ident) {
        Parsed::Fail(spec_invalid(callee, "Ident()"@, Some("function call declaration"@), None))
    } else {
        match spec_call(toks, callee->Ident_0, pos + 4) {
            Parsed::Fail(e) => Parsed::Fail(e),
            Parsed::Done(call, q) => Parsed::Done(
                StatementV::Pipe(
                    PipeV { symbol: t->Sep_0, name: u->Ident_0, equals: eq->Symbol_0, call },
                ),
                q,
            ),
        }
    }
}

/// The statement that begins at `pos`, if one begins there. By its first
/// token a statement is an `unsafe` block, an `at` modifier, a call (which
/// guards a block where curly brackets follow it) or, behind `|`, a pipe. A
/// token that begins no statement is passed over.
pub open spec fn spec_statement(toks: Seq<TokenV>, pos: int) -> Parsed<Option<StatementV>>
    decreases toks, 0nat,
{
    let t = toks[pos];
    if t.is_ident_w("unsafe"@) {
        match spec_unsafe_statement(toks, pos) {
            Parsed::Fail(e) => Parsed::Fail(e),
            Parsed::Done(st, q) => Parsed::Done(Some(st), q),
        }
    } else if t.is_ident_w("at"@) {
        match spec_at_statement(toks, pos) {
            Parsed::Fail(e) => Parsed::Fail(e),
            Parsed::Done(st, q) => Parsed::Done(Some(st), q),
        }
    } else if t is Ident {
        match spec_call(toks, t->Ident_0, pos + 1) {
            Parsed::Fail(e) => Parsed::Fail(e),
            Parsed::Done(call, q) => {
                if 0 <= q < toks.len() && toks[q].is_group_w(Delimiter::CurlyBrackets) {
                    match spec_statements(toks[q]->Group_0.tokens, 0, Seq::empty()) {
                        Err(e) => Parsed::Fail(e),
                        Ok(body) => Parsed::Done(
                            Some(StatementV::If(IfV { call, statements: body })),
                            q + 1,
                        ),
                    }
                } else {
                    Parsed::Done(Some(StatementV::Call(call)), q)
                }
            },
        }
    } else if t.is_sep_w('|') {
        match spec_pipe_statement(toks, pos) {
            Parsed::Fail(e) => Parsed::Fail(e),
            Parsed::Done(st, q) => Parsed::Done(Some(st), q),
        }
    } else {
        Parsed::Done(None, pos + 1)
    }
}

/// The statements from `pos` on, behind those of `acc`, up to the end
/// marker.
pub open spec fn spec_statements(toks: Seq<TokenV>, pos: int, acc: Seq<StatementV>) -> Result<
    Seq<StatementV>,
    CompileErrV,
>
    decreases toks, toks.len() - pos + 1,
{
    if pos < 0 || pos + 1 >= toks.len() || toks[pos] is End {
        Ok(acc)
    } else {
        match spec_statement(toks, pos) {
            Parsed::Fail(e) => Err(e),
            Parsed::Done(st, q) => {
                if pos < q <= toks.len() {
                    spec_statements(
                        toks,
                        q,
                        match st {
                            Some(st) => acc.push(st),
                            None => acc,
                        },
                    )
                } else {
                    Ok(acc)
                }
            },
        }
    }
}

/// The statements of a function body.
pub open spec fn spec_function_block(block: GroupV) -> Result<Seq<StatementV>, CompileErrV> {
    spec_statements(block.tokens, 0, Seq::empty())
}

/// Splits the tokens of an `unsafe` block into its raw commands.
pub fn split_unsafe_commands(group: &Group) -> (r: Vec<UnsafeCmd>)
    requires
        stream_ok(group@.tokens),
    ensures
        views(r@) == spec_commands(group@),
{
    let ghost toks = group@.tokens;
    let n = group.tokens.len() - 1;
    let mut commands: Vec<UnsafeCmd> = Vec::new();
    let mut command = UnsafeCmd::new();
    let mut i: usize = 0;
    assert(views(commands@) =~= Seq::empty());
    while i < n
        invariant
            i <= n,
            n == group.tokens.len() - 1,
            toks == tokens_view(group.tokens@),
            command.sep is None,
            split_commands(toks, i as nat) == (SplitV {
                done: views(commands@),
                run: tokens_view(command.tokens@),
            }),
        decreases n - i,
    {
        let token = &group.tokens[i];
        assert(toks[i as int] == token@);
        match token.as_sep_w(';') {
            Some(sep) => {
                if command.tokens.len() > 0 {
                    command.sep = Some(*sep);
                    proof {
                        lemma_views_push(commands@, command);
                    }
                    commands.push(command);
                    command = UnsafeCmd::new();
                }
            },
            None => {
                let copy = clone_token(token);
                proof {
                    lemma_tokens_view_push(command.tokens@, copy);
                }
                command.tokens.push(copy);
            },
        }
        i += 1;
    }
    if command.tokens.len() > 0 {
        proof {
            lemma_views_push(commands@, command);
        }
        commands.push(command);
    }
    commands
}

/// Splits the tokens between the parentheses of a call into its arguments.
pub fn split_call_args(group: &Group) -> (r: CompileResult<Vec<Arg>>)
    requires
        stream_ok(group@.tokens),
    ensures
        match spec_call_args(group@) {
            Ok(v) => r is Pass && views(r->Pass_0@) == v,
            Err(e) => r is Fail && r->Fail_0@ == e,
        },
{
    let ghost toks = group@.tokens;
    let n = group.tokens.len() - 1;
    let mut args: Vec<Arg> = Vec::new();
    let mut arg = Arg::new();
    let mut i: usize = 0;
    assert(views(args@) =~= Seq::empty());
    while i < n
        invariant
            i <= n,
            n == group.tokens.len() - 1,
            toks == tokens_view(group.tokens@),
            arg.sep is None,
            split_args(toks, i as nat) == Ok::<SplitV, CompileErrV>(
                SplitV { done: views(args@), run: tokens_view(arg.tokens@) },
            ),
        decreases n - i,
    {
        let token = &group.tokens[i];
        assert(toks[i as int] == token@);
        match token.as_sep_w(',') {
            Some(sep) => {
                if arg.tokens.len() == 0 {
                    proof {
                        assert(split_args(toks, (i + 1) as nat) is Err);
                        lemma_split_args_fails(toks, (i + 1) as nat, n as nat);
                    }
                    return token.invalid("argument", Some("function call declaration"), None);
                }
                arg.sep = Some(*sep);
                proof {
                    lemma_views_push(args@, arg);
                }
                args.push(arg);
                arg = Arg::new();
            },
            None => {
                let copy = clone_token(token);
                proof {
                    lemma_tokens_view_push(arg.tokens@, copy);
                }
                arg.tokens.push(copy);
            },
        }
        i += 1;
    }
    if arg.tokens.len() > 0 {
        proof {
            lemma_views_push(args@, arg);
        }
        args.push(arg);
    } else if args.len() > 0 {
        let last = &group.tokens[n];
        assert(toks.last() == last@);
        return last.invalid("argument", Some("function call declaration"), None);
    }
    CompileResult::Pass(args)
}

/// Reads a call whose path begins with the identifier `first`, which stands
/// just before `pos`. Gives the call and the position behind it.
pub fn parse_call(tokens: &Vec<Token>, first: &Ident, pos: usize) -> (r: CompileResult<
    (Call, usize),
>)
    requires
        tree_ok(tokens_view(tokens@)),
        pos < tokens.len(),
    ensures
        match spec_call(tokens_view(tokens@), first@, pos as int) {
            Parsed::Done(v, p) => r is Pass && r->Pass_0.0@ == v && r->Pass_0.1 == p && pos < p
                < tokens.len(),
            Parsed::Fail(e) => r is Fail && r->Fail_0@ == e,
        },
{
    let ghost toks = tokens_view(tokens@);
    proof {
        lemma_path_end(toks, pos as int);
    }
    let (path, q) = read_path(tokens, first, pos);
    let token = &tokens[q];
    assert(toks[q as int] == token@);
    let group = match token.expect_group_w(
        Delimiter::Parentheses,
        Some("function call declaration"),
        None,
    ) {
        CompileResult::Pass(v) => v,
        CompileResult::Fail(e) => {
            return CompileResult::Fail(e);
        },
    };
    assert(tree_ok(toks[q as int]->Group_0.tokens));
    let args = match split_call_args(&group) {
        CompileResult::Pass(v) => v,
        CompileResult::Fail(e) => {
            return CompileResult::Fail(e);
        },
    };
    CompileResult::Pass((Call { path, group, args }, q + 1))
}

/// Reads an `unsafe` block whose keyword `ident` stands at `pos`.
pub fn parse_unsafe_statement(tokens: &Vec<Token>, ident: &Ident, pos: usize) -> (r: CompileResult<
    (Statement, usize),
>)
    requires
        tree_ok(tokens_view(tokens@)),
        pos + 1 < tokens.len(),
        tokens_view(tokens@)[pos as int] == TokenV::Ident(ident@),
    ensures
        match spec_unsafe_statement(tokens_view(tokens@), pos as int) {
            Parsed::Done(v, p) => r is Pass && r->Pass_0.0@ == v && r->Pass_0.1 == p && pos < p
                < tokens.len(),
            Parsed::Fail(e) => r is Fail && r->Fail_0@ == e,
        },
{
    let ghost toks = tokens_view(tokens@);
    let next = &tokens[pos + 1];
    assert(toks[pos + 1] == next@);
    let block = match next.expect_group_w(
        Delimiter::CurlyBrackets,
        Some("unsafe block declaration"),
        None,
    ) {
        CompileResult::Pass(v) => v,
        CompileResult::Fail(e) => {
            return CompileResult::Fail(e);
        },
    };
    assert(tree_ok(toks[pos + 1]->Group_0.tokens));
    let commands = split_unsafe_commands(&block);
    CompileResult::Pass((Statement::Unsafe(Unsafe { ident: ident.clone(), block, commands }), pos + 2))
}

/// Reads an `at` modifier whose keyword `ident` stands at `pos`.
pub fn parse_at_statement(tokens: &Vec<Token>, ident: &Ident, pos: usize) -> (r: CompileResult<
    (Statement, usize),
>)
    requires
        stream_ok(tokens_view(tokens@)),
        pos + 1 < tokens.len(),
        tokens_view(tokens@)[pos as int] == TokenV::Ident(ident@),
    ensures
        match spec_at_statement(tokens_view(tokens@), pos as int) {
            Parsed::Done(v, p) => r is Pass && r->Pass_0.0@ == v && r->Pass_0.1 == p && pos < p
                < tokens.len(),
            Parsed::Fail(e) => r is Fail && r->Fail_0@ == e,
        },
{
    let ghost toks = tokens_view(tokens@);
    let next = &tokens[pos + 1];
    assert(toks[pos + 1] == next@);
    let loc_ident = match next.expect_ident(Some("at modifier"), None) {
        CompileResult::Pass(v) => v,
        CompileResult::Fail(e) => {
            return CompileResult::Fail(e);
        },
    };
    let loc = match AtLoc::parse(&loc_ident, Some("at modifier"), None) {
        CompileResult::Pass(v) => v,
        CompileResult::Fail(e) => {
            return CompileResult::Fail(e);
        },
    };
    CompileResult::Pass(
        (Statement::At(At { ident: ident.clone(), loc, loc_scope: loc_ident.scope }), pos + 2),
    )
}

/// Reads a pipe whose `|`, the separator `sep`, stands at `pos`.
pub fn parse_pipe_statement(tokens: &Vec<Token>, sep: &Sep, pos: usize) -> (r: CompileResult<
    (Statement, usize),
>)
    requires
        tree_ok(tokens_view(tokens@)),
        pos + 1 < tokens.len(),
        tokens_view(tokens@)[pos as int] == TokenV::Sep(*sep),
    ensures
        match spec_pipe_statement(tokens_view(tokens@), pos as int) {
            Parsed::Done(v, p) => r is Pass && r->Pass_0.0@ == v && r->Pass_0.1 == p && pos < p
                < tokens.len(),
            Parsed::Fail(e) => r is Fail && r->Fail_0@ == e,
        },
{
    let ghost toks = tokens_view(tokens@);
    let named = &tokens[pos + 1];
    assert(toks[pos + 1] == named@);
    let name = match named.expect_ident(Some("pipe declaration"), None) {
        CompileResult::Pass(v) => v,
        CompileResult::Fail(e) => {
            return CompileResult::Fail(e);
        },
    };
    let eq = &tokens[pos + 2];
    assert(toks[pos + 2] == eq@);
    let equals = match eq.as_symbol_w("=") {
        Some(symbol) => symbol.clone(),
        None => {
            return eq.invalid("Symbol(\"=\")", Some("pipe declaration"), None);
        },
    };
    let called = &tokens[pos + 3];
    assert(toks[pos + 3] == called@);
    let callee = match called.expect_ident(Some("function call declaration"), None) {
        CompileResult::Pass(v) => v,
        CompileResult::Fail(e) => {
            return CompileResult::Fail(e);
        },
    };
    let (call, q) = match parse_call(tokens, &callee, pos + 4) {
        CompileResult::Pass(v) => v,
        CompileResult::Fail(e) => {
            return CompileResult::Fail(e);
        },
    };
    CompileResult::Pass((Statement::Pipe(Pipe { symbol: *sep, name, equals, call }), q))
}

/// Reads the statement that begins at `pos`, if one begins there. Gives the
/// statement and the position behind it.
pub fn parse_statement(tokens: &Vec<Token>, pos: usize) -> (r: CompileResult<
    (Option<Statement>, usize),
>)
    requires
        tree_ok(tokens_view(tokens@)),
        pos + 1 < tokens.len(),
        !(tokens_view(tokens@)[pos as int] is End),
    ensures
        match spec_statement(tokens_view(tokens@), pos as int) {
            Parsed::Done(v, p) => r is Pass && r->Pass_0.1 == p && pos < p < tokens.len() && (match v {
                Some(st) => r->Pass_0.0 is Some && r->Pass_0.0->Some_0@ == st,
                None => r->Pass_0.0 is None,
            }),
            Parsed::Fail(e) => r is Fail && r->Fail_0@ == e,
        },
    decreases tokens@, 0nat,
{
    let ghost toks = tokens_view(tokens@);
    let token = &tokens[pos];
    assert(toks[pos as int] == token@);
    match token {
        Token::Ident(ident) => {
            if ident.value.as_str().eq("unsafe") {
                match parse_unsafe_statement(tokens, ident, pos) {
                    CompileResult::Pass((st, q)) => CompileResult::Pass((Some(st), q)),
                    CompileResult::Fail(e) => CompileResult::Fail(e),
                }
            } else if ident.value.as_str().eq("at") {
                match parse_at_statement(tokens, ident, pos) {
                    CompileResult::Pass((st, q)) => CompileResult::Pass((Some(st), q)),
                    CompileResult::Fail(e) => CompileResult::Fail(e),
                }
            } else {
                let (call, q) = match parse_call(tokens, ident, pos + 1) {
                    CompileResult::Pass(v) => v,
                    CompileResult::Fail(e) => {
                        return CompileResult::Fail(e);
                    },
                };
                let guarded = &tokens[q];
                assert(toks[q as int] == guarded@);
                let mut body: Option<&Group> = None;
                match guarded {
                    Token::Group(group) => {
                        if group.delimiter == Delimiter::CurlyBrackets {
                            body = Some(group);
                        }
                    },
                    _ => {},
                }
                match body {
                    Some(group) => {
                        assert(tree_ok(toks[q as int]->Group_0.tokens));
                        let inner = match parse_statements(&group.tokens) {
                            CompileResult::Pass(v) => v,
                            CompileResult::Fail(e) => {
                                return CompileResult::Fail(e);
                            },
                        };
                        CompileResult::Pass(
                            (Some(Statement::If(If { call, statements: inner })), q + 1),
                        )
                    },
                    None => CompileResult::Pass((Some(Statement::Call(call)), q)),
                }
            }
        },
        Token::Sep(sep) => {
            if sep.value == '|' {
                match parse_pipe_statement(tokens, sep, pos) {
                    CompileResult::Pass((st, q)) => CompileResult::Pass((Some(st), q)),
                    CompileResult::Fail(e) => CompileResult::Fail(e),
                }
            } else {
                CompileResult::Pass((None, pos + 1))
            }
        },
        _ => CompileResult::Pass((None, pos + 1)),
    }
}

/// Reads the statements that a token sequence holds.
pub fn parse_statements(tokens: &Vec<Token>) -> (r: CompileResult<Vec<Statement>>)
    requires
        tree_ok(tokens_view(tokens@)),
    ensures
        match spec_statements(tokens_view(tokens@), 0, Seq::empty()) {
            Ok(v) => r is Pass && statements_view(r->Pass_0@) == v,
            Err(e) => r is Fail && r->Fail_0@ == e,
        },
    decreases tokens@, 1nat,
{
    let ghost toks = tokens_view(tokens@);
    let len = tokens.len();
    let mut statements: Vec<Statement> = Vec::new();
    let mut pos: usize = 0;
    assert(statements_view(statements@) =~= Seq::empty());
    loop
        invariant
            pos < len,
            len == tokens.len(),
            toks == tokens_view(tokens@),
            tree_ok(toks),
            spec_statements(toks, 0, Seq::empty()) == spec_statements(
                toks,
                pos as int,
                statements_view(statements@),
            ),
        decreases len - pos,
    {
        assert(toks[pos as int] == tokens@[pos as int]@);
        if tokens[pos].is_end() {
            return CompileResult::Pass(statements);
        }
        let (statement, q) = match parse_statement(tokens, pos) {
            CompileResult::Pass(v) => v,
            CompileResult::Fail(e) => {
                return CompileResult::Fail(e);
            },
        };
        match statement {
            Some(statement) => {
                proof {
                    lemma_statements_view_push(statements@, statement);
                }
                statements.push(statement);
            },
            None => {},
        }
        pos = q;
    }
}

/// The suggested fix for a file that does not begin with its datapack
/// declaration.
pub open spec fn spec_datapack_help() -> HelpV {
    HelpV { msg: "declare datapack at top of file"@, source: "datapack some_pack;"@, line: 0 }
}

/// The failure that reports the word `ident` where a top-level item was asked
/// for.
pub open spec fn spec_unknown_item(ident: TextV) -> CompileErrV {
    CompileErrV::Error(
        DiagnosticV {
            kind: ErrorKind::UnknownTopLevelItem,
            scope: ident.scope,
            cause: ident.value,
            pointer: "unknown item declaration"@,
            context: Some("top-level"@),
            help: None,
        },
    )
}

/// The datapack `acc` with the items from `pos` on added: each begins with
/// `function`, `scoreboard` or `inline`, up to the end marker.
pub open spec fn spec_items(toks: Seq<TokenV>, pos: int, acc: DatapackV) -> Result<
    DatapackV,
    CompileErrV,
>
    decreases toks.len() - pos,
{
    if pos < 0 || pos + 1 >= toks.len() || toks[pos] is End {
        Ok(acc)
    } else if !(toks[pos] is Ident) {
        Err(spec_invalid(toks[pos], "Ident()"@, Some("top-level"@), None))
    } else {
        let keyword = toks[pos]->Ident_0;
        if keyword.value == "function"@ {
            match spec_parse_function(toks, pos + 1, keyword) {
                Parsed::Fail(e) => Err(e),
                Parsed::Done(function, q) => {
                    if pos < q < toks.len() {
                        spec_items(
                            toks,
                            q,
                            DatapackV {
                                name: acc.name,
                                functions: acc.functions.push(function),
                                scoreboards: acc.scoreboards,
                                inlines: acc.inlines,
                            },
                        )
                    } else {
                        Ok(acc)
                    }
                },
            }
        } else if keyword.value == "scoreboard"@ {
            match spec_parse_scoreboard(toks, pos + 1, keyword) {
                Parsed::Fail(e) => Err(e),
                Parsed::Done(scoreboard, q) => {
                    if pos < q < toks.len() {
                        spec_items(
                            toks,
                            q,
                            DatapackV {
                                name: acc.name,
                                functions: acc.functions,
                                scoreboards: acc.scoreboards.push(scoreboard),
                                inlines: acc.inlines,
                            },
                        )
                    } else {
                        Ok(acc)
                    }
                },
            }
        } else if keyword.value == "inline"@ {
            match spec_parse_inline(toks, pos + 1, keyword) {
                Parsed::Fail(e) => Err(e),
                Parsed::Done(inline, q) => {
                    if pos < q < toks.len() {
                        spec_items(
                            toks,
                            q,
                            DatapackV {
                                name: acc.name,
                                functions: acc.functions,
                                scoreboards: acc.scoreboards,
                                inlines: acc.inlines.push(inline),
                            },
                        )
                    } else {
                        Ok(acc)
                    }
                },
            }
        } else {
            Err(spec_unknown_item(keyword))
        }
    }
}

/// The program tree of a token sequence read from `pos` on: the declaration
/// `datapack name;`, then the items up to the end marker. A failure within
/// the declaration carries the suggested fix that shows its form.
pub open spec fn spec_parse(toks: Seq<TokenV>, pos: int) -> Result<DatapackV, CompileErrV> {
    let context = Some("datapack declaration"@);
    let t0 = toks[pos];
    let pos1 = advance(toks, pos);
    let t1 = toks[pos1];
    let pos2 = advance(toks, pos1);
    let t2 = toks[pos2];
    let pos3 = advance(toks, pos2);
    if !t0.is_ident_w("datapack"@) {
        Err(spec_invalid(t0, spec_expected_word("datapack"@), context, Some(spec_datapack_help())))
    } else if !(t1 is Ident) {
        Err(spec_invalid(t1, "Ident()"@, context, Some(spec_datapack_help())))
    } else if !t2.is_sep_w(';') {
        Err(spec_invalid(t2, spec_expected_sep(';'), context, Some(spec_datapack_help())))
    } else {
        spec_items(toks, pos3, spec_empty_datapack(t1->Ident_0))
    }
}

/// The suggested fix for a file that does not begin with its datapack
/// declaration.
pub fn datapack_help() -> (h: Help)
    ensures
        h@ == spec_datapack_help(),
{
    Help {
        msg: "declare datapack at top of file".to_owned(),
        source: "datapack some_pack;".to_owned(),
        line: 0,
    }
}

impl Parser {
    /// Reads the whole sequence into a datapack, or stops at the first
    /// failure, which is an error of a syntactic kind.
    pub fn parse(&mut self) -> (r: CompileResult<Datapack>)
        requires
            old(self).wf(),
        ensures
            final(self).wf(),
            final(self).tokens.tokens == old(self).tokens.tokens,
            match spec_parse(old(self).tokens.toks(), old(self).tokens.index as int) {
                Ok(v) => r is Pass && r->Pass_0@ == v,
                Err(e) => r is Fail && r->Fail_0@ == e && syntactic_error(e),
            },
    {
        let ghost toks = self.tokens.toks();
        proof {
            lemma_parse_fails_syntactically(toks, self.tokens.index as int);
        }
        match self.tokens.next().expect_ident_w(
            "datapack",
            Some("datapack declaration"),
            Some(datapack_help()),
        ) {
            CompileResult::Pass(_) => {},
            CompileResult::Fail(e) => {
                return CompileResult::Fail(e);
            },
        }
        let name = match self.tokens.next().expect_ident(
            Some("datapack declaration"),
            Some(datapack_help()),
        ) {
            CompileResult::Pass(v) => v,
            CompileResult::Fail(e) => {
                return CompileResult::Fail(e);
            },
        };
        match self.tokens.next().expect_sep_w(
            ';',
            Some("datapack declaration"),
            Some(datapack_help()),
        ) {
            CompileResult::Pass(_) => {},
            CompileResult::Fail(e) => {
                return CompileResult::Fail(e);
            },
        }
        let mut datapack = Datapack::empty(name);
        let ghost start = self.tokens.index as int;
        let ghost first = datapack@;
        loop
            invariant
                self.wf(),
                self.tokens.tokens == old(self).tokens.tokens,
                toks == self.tokens.toks(),
                toks == old(self).tokens.toks(),
                spec_parse(toks, old(self).tokens.index as int) == spec_items(toks, start, first),
                spec_parse(toks, old(self).tokens.index as int) matches Err(e) ==> syntactic_error(
                    e,
                ),
                spec_items(toks, start, first) == spec_items(
                    toks,
                    self.tokens.index as int,
                    datapack@,
                ),
            decreases self.tokens.tokens@.len() - self.tokens.index,
        {
            let ghost pos = self.tokens.index as int;
            let next = self.tokens.next();
            if next.is_end() {
                return CompileResult::Pass(datapack);
            }
            let ident = match next.expect_ident(Some("top-level"), None) {
                CompileResult::Pass(v) => v,
                CompileResult::Fail(e) => {
                    return CompileResult::Fail(e);
                },
            };
            assert(self.tokens.index == pos + 1);
            if ident.value.as_str().eq("function") {
                let function = match self.parse_function(ident) {
                    CompileResult::Pass(v) => v,
                    CompileResult::Fail(e) => {
                        return CompileResult::Fail(e);
                    },
                };
                proof {
                    lemma_views_push(datapack.functions@, function);
                }
                datapack.functions.push(function);
            } else if ident.value.as_str().eq("scoreboard") {
                let scoreboard = match self.parse_scoreboard(ident) {
                    CompileResult::Pass(v) => v,
                    CompileResult::Fail(e) => {
                        return CompileResult::Fail(e);
                    },
                };
                proof {
                    lemma_views_push(datapack.scoreboards@, scoreboard);
                }
                datapack.scoreboards.push(scoreboard);
            } else if ident.value.as_str().eq("inline") {
                let inline = match self.parse_inline(ident) {
                    CompileResult::Pass(v) => v,
                    CompileResult::Fail(e) => {
                        return CompileResult::Fail(e);
                    },
                };
                proof {
                    lemma_views_push(datapack.inlines@, inline);
                }
                datapack.inlines.push(inline);
            } else {
                return CompileResult::Fail(
                    error(
                        ident.scope,
                        ErrorInfo {
                            kind: ErrorKind::UnknownTopLevelItem,
                            cause: ident.value.as_str(),
                            pointer: "unknown item declaration",
                            context: Some("top-level"),
                            help: None,
                        },
                    ),
                );
            }
        }
    }

    /// Reads an inline declaration behind its keyword.
    pub fn parse_inline(&mut self, keyword: Ident) -> (r: CompileResult<Inline>)
        requires
            old(self).wf(),
        ensures
            final(self).wf(),
            final(self).tokens.tokens == old(self).tokens.tokens,
            final(self).tokens.index >= old(self).tokens.index,
            match spec_parse_inline(
                old(self).tokens.toks(),
                old(self).tokens.index as int,
                keyword@,
            ) {
                Parsed::Done(v, p) => r is Pass && r->Pass_0@ == v && final(self).tokens.index == p,
                Parsed::Fail(e) => r is Fail && r->Fail_0@ == e,
            },
    {
        let ghost toks = self.tokens.toks();
        let name = match self.tokens.next().expect_ident(Some("inline declaration"), None) {
            CompileResult::Pass(v) => v,
            CompileResult::Fail(e) => {
                return CompileResult::Fail(e);
            },
        };
        let ghost pos1 = self.tokens.index as int;
        let group = match self.tokens.next().expect_group_w(
            Delimiter::Parentheses,
            Some("inline declaration"),
            None,
        ) {
            CompileResult::Pass(v) => v,
            CompileResult::Fail(e) => {
                return CompileResult::Fail(e);
            },
        };
        assert(toks[pos1] is Group);
        assert(tree_ok(toks[pos1]->Group_0.tokens));
        let args = match parse_inline_args(&group) {
            CompileResult::Pass(v) => v,
            CompileResult::Fail(e) => {
                return CompileResult::Fail(e);
            },
        };
        let block = match self.tokens.next().expect_group_w(
            Delimiter::CurlyBrackets,
            Some("inline declaration"),
            None,
        ) {
            CompileResult::Pass(v) => v,
            CompileResult::Fail(e) => {
                return CompileResult::Fail(e);
            },
        };
        CompileResult::Pass(Inline { keyword, name, args, parens: group.scope, block })
    }

    /// Reads the statements of a function body.
    pub fn parse_function_block(block: &Group) -> (r: CompileResult<Vec<Statement>>)
        requires
            tree_ok(block@.tokens),
        ensures
            match spec_function_block(block@) {
                Ok(v) => r is Pass && statements_view(r->Pass_0@) == v,
                Err(e) => r is Fail && r->Fail_0@ == e,
            },
    {
        parse_statements(&block.tokens)
    }
}

} // verus!
