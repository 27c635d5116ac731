//! What holds of everything that the parser reads: nothing is lost when
//! arguments are sorted and raw commands are split, and every failure is a
//! syntactic one.

use vstd::prelude::*;
use crate::ast::{DatapackV, FunArgsV, InlineArgV, RunV, StatementV};
use crate::errors::{CompileErrV, ErrorKind};
use crate::files::FileRef;
use crate::parser::{
    scan_arg,
    scan_args,
    spec_call,
    spec_call_args,
    spec_commands,
    spec_inline_args,
    spec_items,
    spec_parse,
    spec_parse_function,
    spec_parse_inline,
    spec_parse_scoreboard,
    spec_statement,
    spec_statements,
    split_args,
    split_commands,
    Parsed,
};
use crate::span::SrcScope;
use crate::token_stream::{advance, lemma_path_end, path_end};
use crate::tokens::{all_in_file, stream_ok, tree_ok, GroupV, TextV, TokenV};

verus! {

/// The identifiers among the first `n` tokens of `toks`, in order.
pub open spec fn idents_in(toks: Seq<TokenV>, n: nat) -> Seq<TextV>
    decreases n,
{
    if n == 0 {
        Seq::empty()
    } else {
        let before = idents_in(toks, (n - 1) as nat);
        if toks[n - 1] is Ident {
            before.push(toks[n - 1]->Ident_0)
        } else {
            before
        }
    }
}

/// The identifiers of an argument list: the inputs, then the outputs, then
/// the objective.
pub open spec fn sorted_args(args: FunArgsV) -> Seq<TextV> {
    args.input + args.output + match args.objective {
        Some(objective) => seq![objective],
        None => Seq::empty(),
    }
}

/// Sorting the arguments of a function loses nothing and keeps the order:
/// the inputs, the outputs and the objective, one behind the other, are the
/// identifiers of the list as they stand in the source. There are outputs
/// only behind an arrow, and an objective only behind a colon.
pub proof fn lemma_fun_args_keep_every_identifier(toks: Seq<TokenV>, n: nat, parens: SrcScope)
    requires
        scan_args(toks, n, parens) is Ok,
    ensures
        ({
            let args = scan_args(toks, n, parens)->Ok_0;
            &&& sorted_args(args) == idents_in(toks, n)
            &&& args.parens == parens
            &&& (args.arrow is None ==> args.output.len() == 0)
            &&& (args.colon is None ==> args.objective is None)
        }),
    decreases n,
{
    if n > 0 {
        let before = scan_args(toks, (n - 1) as nat, parens);
        lemma_fun_args_keep_every_identifier(toks, (n - 1) as nat, parens);
        let st = before->Ok_0;
        let t = toks[n - 1];
        let after = scan_arg(st, t)->Ok_0;
        assert(sorted_args(after) =~= idents_in(toks, n));
    } else {
        assert(sorted_args(scan_args(toks, n, parens)->Ok_0) =~= idents_in(toks, n));
    }
}

/// The first `n` tokens of `toks` without the separators `c`.
pub open spec fn without_sep(toks: Seq<TokenV>, n: nat, c: char) -> Seq<TokenV>
    decreases n,
{
    if n == 0 {
        Seq::empty()
    } else {
        let before = without_sep(toks, (n - 1) as nat, c);
        if toks[n - 1].is_sep_w(c) {
            before
        } else {
            before.push(toks[n - 1])
        }
    }
}

/// The tokens of the first `n` runs, one run behind the other.
pub open spec fn flatten_runs(runs: Seq<RunV>, n: nat) -> Seq<TokenV>
    decreases n,
{
    if n == 0 {
        Seq::empty()
    } else {
        flatten_runs(runs, (n - 1) as nat) + runs[n - 1].tokens
    }
}

/// Every run holds a token, and every run but the last was ended by the
/// separator `c`; the last may have been.
pub open spec fn runs_ok(runs: Seq<RunV>, c: char, open_end: bool) -> bool {
    forall|k: int|
        0 <= k < runs.len() ==> {
            &&& (#[trigger] runs[k]).tokens.len() > 0
            &&& (runs[k].sep matches Some(sep) ==> sep.value == c)
            &&& (k < runs.len() - 1 || !open_end ==> runs[k].sep is Some)
        }
}

/// The runs of `runs` with one more behind them hold the tokens of all.
pub proof fn lemma_flatten_push(runs: Seq<RunV>, run: RunV)
    ensures
        flatten_runs(runs.push(run), runs.len() + 1) == flatten_runs(runs, runs.len()) + run.tokens,
{
    lemma_flatten_prefix(runs, run, runs.len());
}

/// Adding a run at the end does not change what the runs before it hold.
pub proof fn lemma_flatten_prefix(runs: Seq<RunV>, run: RunV, n: nat)
    requires
        n <= runs.len(),
    ensures
        flatten_runs(runs.push(run), n) == flatten_runs(runs, n),
    decreases n,
{
    if n > 0 {
        lemma_flatten_prefix(runs, run, (n - 1) as nat);
    }
}

/// While the tokens of an `unsafe` block are split, what was split off and
/// what is being gathered hold every token read so far but the semicolons.
pub proof fn lemma_split_commands_keeps_tokens(toks: Seq<TokenV>, n: nat)
    ensures
        ({
            let st = split_commands(toks, n);
            &&& flatten_runs(st.done, st.done.len()) + st.run == without_sep(toks, n, ';')
            &&& runs_ok(st.done, ';', false)
        }),
    decreases n,
{
    if n > 0 {
        lemma_split_commands_keeps_tokens(toks, (n - 1) as nat);
        let before = split_commands(toks, (n - 1) as nat);
        let st = split_commands(toks, n);
        let t = toks[n - 1];
        if t.is_sep_w(';') {
            if before.run.len() > 0 {
                let run = RunV { tokens: before.run, sep: Some(t->Sep_0) };
                lemma_flatten_push(before.done, run);
                assert(flatten_runs(st.done, st.done.len()) + st.run =~= without_sep(toks, n, ';'));
            } else {
                assert(flatten_runs(st.done, st.done.len()) + st.run =~= without_sep(toks, n, ';'));
            }
        } else {
            assert(flatten_runs(st.done, st.done.len()) + st.run =~= without_sep(toks, n, ';'));
        }
    } else {
        let st = split_commands(toks, n);
        assert(flatten_runs(st.done, st.done.len()) + st.run =~= without_sep(toks, n, ';'));
    }
}

/// The raw commands of an `unsafe` block are its tokens, verbatim: one
/// command behind the other, they are the tokens between the curly brackets
/// without the semicolons. No command is empty, and only the last may lack
/// its semicolon.
pub proof fn lemma_commands_keep_every_token(g: GroupV)
    requires
        g.tokens.len() > 0,
    ensures
        flatten_runs(spec_commands(g), spec_commands(g).len()) == without_sep(
            g.tokens,
            (g.tokens.len() - 1) as nat,
            ';',
        ),
        runs_ok(spec_commands(g), ';', true),
{
    let n = (g.tokens.len() - 1) as nat;
    lemma_split_commands_keeps_tokens(g.tokens, n);
    let st = split_commands(g.tokens, n);
    if st.run.len() > 0 {
        lemma_flatten_push(st.done, RunV { tokens: st.run, sep: None });
    } else {
        assert(flatten_runs(st.done, st.done.len()) + st.run =~= flatten_runs(
            st.done,
            st.done.len(),
        ));
    }
}

/// While the tokens of an argument list are split, what was split off and
/// what is being gathered hold every token read so far but the commas.
pub proof fn lemma_split_args_keeps_tokens(toks: Seq<TokenV>, n: nat)
    requires
        split_args(toks, n) is Ok,
    ensures
        ({
            let st = split_args(toks, n)->Ok_0;
            &&& flatten_runs(st.done, st.done.len()) + st.run == without_sep(toks, n, ',')
            &&& runs_ok(st.done, ',', false)
        }),
    decreases n,
{
    if n > 0 {
        lemma_split_args_keeps_tokens(toks, (n - 1) as nat);
        let before = split_args(toks, (n - 1) as nat)->Ok_0;
        let st = split_args(toks, n)->Ok_0;
        let t = toks[n - 1];
        if t.is_sep_w(',') {
            let run = RunV { tokens: before.run, sep: Some(t->Sep_0) };
            lemma_flatten_push(before.done, run);
            assert(flatten_runs(st.done, st.done.len()) + st.run =~= without_sep(toks, n, ','));
        } else {
            assert(flatten_runs(st.done, st.done.len()) + st.run =~= without_sep(toks, n, ','));
        }
    } else {
        let st = split_args(toks, n)->Ok_0;
        assert(flatten_runs(st.done, st.done.len()) + st.run =~= without_sep(toks, n, ','));
    }
}

/// The arguments of a call are its tokens, verbatim: one argument behind the
/// other, they are the tokens between the parentheses without the commas. No
/// argument is empty, and a comma ended every argument but the last.
pub proof fn lemma_call_args_keep_every_token(g: GroupV)
    requires
        g.tokens.len() > 0,
        spec_call_args(g) is Ok,
    ensures
        ({
            let args = spec_call_args(g)->Ok_0;
            &&& flatten_runs(args, args.len()) == without_sep(
                g.tokens,
                (g.tokens.len() - 1) as nat,
                ',',
            )
            &&& runs_ok(args, ',', true)
            &&& (args.len() > 0 ==> args.last().sep is None)
        }),
{
    let n = (g.tokens.len() - 1) as nat;
    lemma_split_args_keeps_tokens(g.tokens, n);
    let st = split_args(g.tokens, n)->Ok_0;
    if st.run.len() > 0 {
        lemma_flatten_push(st.done, RunV { tokens: st.run, sep: None });
    } else {
        assert(flatten_runs(st.done, st.done.len()) + st.run =~= flatten_runs(
            st.done,
            st.done.len(),
        ));
    }
}

/// The kinds of failure that parsing reports.
pub open spec fn is_syntactic(kind: ErrorKind) -> bool {
    kind == ErrorKind::UnexpectedToken || kind == ErrorKind::MultipleObjectives || kind
        == ErrorKind::InvalidLocation || kind == ErrorKind::InvalidArgType || kind
        == ErrorKind::UnknownTopLevelItem
}

/// An error, not a warning, of a syntactic kind.
pub open spec fn syntactic_error(e: CompileErrV) -> bool {
    e matches CompileErrV::Error(d) && is_syntactic(d.kind)
}

/// A failure in an argument list is a syntactic error.
pub proof fn lemma_fun_args_fail_syntactically(toks: Seq<TokenV>, n: nat, parens: SrcScope)
    ensures
        scan_args(toks, n, parens) matches Err(e) ==> syntactic_error(e),
    decreases n,
{
    if n > 0 {
        lemma_fun_args_fail_syntactically(toks, (n - 1) as nat, parens);
    }
}

/// A failure among inline arguments is a syntactic error.
pub proof fn lemma_inline_args_fail_syntactically(
    toks: Seq<TokenV>,
    pos: int,
    acc: Seq<InlineArgV>,
)
    ensures
        spec_inline_args(toks, pos, acc) matches Err(e) ==> syntactic_error(e),
    decreases toks.len() - pos,
{
    if !(pos < 0 || pos >= toks.len() || toks[pos] is End) {
        let t0 = toks[pos];
        let t1 = toks[pos + 1];
        let t2 = toks[pos + 2];
        let t3 = toks[pos + 3];
        if t0 is Ident && t1.is_sep_w(':') && t2 is Ident && t3.is_sep_w(',') && pos + 4
            <= toks.len() {
            match crate::ast::spec_inline_arg_type(t2->Ident_0.value) {
                Some(ty) => {
                    let arg = InlineArgV {
                        name: t0->Ident_0,
                        colon: t1->Sep_0.scope,
                        ty,
                        ty_scope: t2->Ident_0.scope,
                        sep: Some(t3->Sep_0),
                    };
                    lemma_inline_args_fail_syntactically(toks, pos + 4, acc.push(arg));
                },
                None => {},
            }
        }
    }
}

/// A failure among the arguments of a call is a syntactic error.
pub proof fn lemma_split_args_fail_syntactically(toks: Seq<TokenV>, n: nat)
    ensures
        split_args(toks, n) matches Err(e) ==> syntactic_error(e),
    decreases n,
{
    if n > 0 {
        lemma_split_args_fail_syntactically(toks, (n - 1) as nat);
    }
}

/// A failure in a call is a syntactic error.
pub proof fn lemma_call_fails_syntactically(toks: Seq<TokenV>, first: TextV, pos: int)
    ensures
        spec_call(toks, first, pos) matches Parsed::Fail(e) ==> syntactic_error(e),
{
    let g = toks[crate::token_stream::path_end(toks, pos)];
    if g is Group {
        lemma_split_args_fail_syntactically(
            g->Group_0.tokens,
            (g->Group_0.tokens.len() - 1) as nat,
        );
    }
}

/// A failure in a statement is a syntactic error.
pub proof fn lemma_statement_fails_syntactically(toks: Seq<TokenV>, pos: int)
    ensures
        spec_statement(toks, pos) matches Parsed::Fail(e) ==> syntactic_error(e),
    decreases toks, 0nat,
{
    let t = toks[pos];
    if t.is_ident_w("unsafe"@) || t.is_ident_w("at"@) {
    } else if t is Ident {
        lemma_call_fails_syntactically(toks, t->Ident_0, pos + 1);
        match spec_call(toks, t->Ident_0, pos + 1) {
            Parsed::Done(call, q) => {
                if 0 <= q < toks.len() && toks[q] is Group {
                    lemma_statements_fail_syntactically(toks[q]->Group_0.tokens, 0, Seq::empty());
                }
            },
            Parsed::Fail(_) => {},
        }
    } else if t.is_sep_w('|') {
        let callee = toks[pos + 3];
        if callee is Ident {
            lemma_call_fails_syntactically(toks, callee->Ident_0, pos + 4);
        }
    }
}

/// A failure among the statements of a body is a syntactic error.
pub proof fn lemma_statements_fail_syntactically(
    toks: Seq<TokenV>,
    pos: int,
    acc: Seq<StatementV>,
)
    ensures
        spec_statements(toks, pos, acc) matches Err(e) ==> syntactic_error(e),
    decreases toks, toks.len() - pos + 1,
{
    if !(pos < 0 || pos + 1 >= toks.len() || toks[pos] is End) {
        lemma_statement_fails_syntactically(toks, pos);
        match spec_statement(toks, pos) {
            Parsed::Done(st, q) => {
                if pos < q <= toks.len() {
                    lemma_statements_fail_syntactically(
                        toks,
                        q,
                        match st {
                            Some(st) => acc.push(st),
                            None => acc,
                        },
                    );
                }
            },
            Parsed::Fail(_) => {},
        }
    }
}

/// A failure in a function declaration is a syntactic error.
pub proof fn lemma_function_fails_syntactically(toks: Seq<TokenV>, pos: int, keyword: TextV)
    ensures
        spec_parse_function(toks, pos, keyword) matches Parsed::Fail(e) ==> syntactic_error(e),
{
    let t1 = toks[crate::token_stream::advance(toks, pos)];
    if t1 is Group {
        lemma_fun_args_fail_syntactically(
            t1->Group_0.tokens,
            (t1->Group_0.tokens.len() - 1) as nat,
            t1->Group_0.scope,
        );
    }
}

/// A failure in an inline declaration is a syntactic error.
pub proof fn lemma_inline_fails_syntactically(toks: Seq<TokenV>, pos: int, keyword: TextV)
    ensures
        spec_parse_inline(toks, pos, keyword) matches Parsed::Fail(e) ==> syntactic_error(e),
{
    let t1 = toks[crate::token_stream::advance(toks, pos)];
    if t1 is Group {
        lemma_inline_args_fail_syntactically(t1->Group_0.tokens, 0, Seq::empty());
    }
}

/// A failure among the items of a datapack is a syntactic error.
pub proof fn lemma_items_fail_syntactically(toks: Seq<TokenV>, pos: int, acc: DatapackV)
    ensures
        spec_items(toks, pos, acc) matches Err(e) ==> syntactic_error(e),
    decreases toks.len() - pos,
{
    if !(pos < 0 || pos + 1 >= toks.len() || toks[pos] is End) && toks[pos] is Ident {
        let keyword = toks[pos]->Ident_0;
        if keyword.value == "function"@ {
            lemma_function_fails_syntactically(toks, pos + 1, keyword);
            match spec_parse_function(toks, pos + 1, keyword) {
                Parsed::Done(function, q) => {
                    if pos < q < toks.len() {
                        lemma_items_fail_syntactically(
                            toks,
                            q,
                            DatapackV {
                                name: acc.name,
                                functions: acc.functions.push(function),
                                scoreboards: acc.scoreboards,
                                inlines: acc.inlines,
                            },
                        );
                    }
                },
                Parsed::Fail(_) => {},
            }
        } else if keyword.value == "scoreboard"@ {
            match spec_parse_scoreboard(toks, pos + 1, keyword) {
                Parsed::Done(scoreboard, q) => {
                    if pos < q < toks.len() {
                        lemma_items_fail_syntactically(
                            toks,
                            q,
                            DatapackV {
                                name: acc.name,
                                functions: acc.functions,
                                scoreboards: acc.scoreboards.push(scoreboard),
                                inlines: acc.inlines,
                            },
                        );
                    }
                },
                Parsed::Fail(_) => {},
            }
        } else if keyword.value == "inline"@ {
            lemma_inline_fails_syntactically(toks, pos + 1, keyword);
            match spec_parse_inline(toks, pos + 1, keyword) {
                Parsed::Done(inline, q) => {
                    if pos < q < toks.len() {
                        lemma_items_fail_syntactically(
                            toks,
                            q,
                            DatapackV {
                                name: acc.name,
                                functions: acc.functions,
                                scoreboards: acc.scoreboards,
                                inlines: acc.inlines.push(inline),
                            },
                        );
                    }
                },
                Parsed::Fail(_) => {},
            }
        }
    }
}

/// Every failure of the parser is an error of a syntactic kind: an
/// unexpected token, several objectives, an invalid location, an invalid
/// argument type or an unknown top-level item.
pub proof fn lemma_parse_fails_syntactically(toks: Seq<TokenV>, pos: int)
    ensures
        spec_parse(toks, pos) matches Err(e) ==> syntactic_error(e),
{
    let pos1 = crate::token_stream::advance(toks, pos);
    let pos2 = crate::token_stream::advance(toks, pos1);
    let pos3 = crate::token_stream::advance(toks, pos2);
    let t1 = toks[pos1];
    if t1 is Ident {
        lemma_items_fail_syntactically(toks, pos3, crate::ast::spec_empty_datapack(t1->Ident_0));
    }
}

/// The failure is anchored at a span of the file `file`.
pub open spec fn anchored(e: CompileErrV, file: FileRef) -> bool {
    match e {
        CompileErrV::Error(d) => d.scope.file == file,
        CompileErrV::Warning(d) => d.scope.file == file,
    }
}

/// A failure in an argument list is anchored in the file of its tokens.
pub proof fn lemma_fun_args_fail_in_file(
    toks: Seq<TokenV>,
    n: nat,
    parens: SrcScope,
    file: FileRef,
)
    requires
        n <= toks.len(),
        all_in_file(toks, file),
    ensures
        scan_args(toks, n, parens) matches Err(e) ==> anchored(e, file),
    decreases n,
{
    if n > 0 {
        lemma_fun_args_fail_in_file(toks, (n - 1) as nat, parens, file);
        assert(toks[n - 1].scope().file == file);
    }
}

/// A failure among inline arguments is anchored in the file of its tokens.
pub proof fn lemma_inline_args_fail_in_file(
    toks: Seq<TokenV>,
    pos: int,
    acc: Seq<InlineArgV>,
    file: FileRef,
)
    requires
        stream_ok(toks),
        all_in_file(toks, file),
        0 <= pos < toks.len(),
    ensures
        spec_inline_args(toks, pos, acc) matches Err(e) ==> anchored(e, file),
    decreases toks.len() - pos,
{
    if !(toks[pos] is End) {
        let t0 = toks[pos];
        let t1 = toks[pos + 1];
        assert(t0.scope().file == file);
        assert(t1.scope().file == file);
        if t0 is Ident && t1.is_sep_w(':') {
            let t2 = toks[pos + 2];
            assert(t2.scope().file == file);
            if t2 is Ident {
                let t3 = toks[pos + 3];
                assert(t3.scope().file == file);
                if t3.is_sep_w(',') {
                    match crate::ast::spec_inline_arg_type(t2->Ident_0.value) {
                        Some(ty) => {
                            let arg = InlineArgV {
                                name: t0->Ident_0,
                                colon: t1->Sep_0.scope,
                                ty,
                                ty_scope: t2->Ident_0.scope,
                                sep: Some(t3->Sep_0),
                            };
                            lemma_inline_args_fail_in_file(toks, pos + 4, acc.push(arg), file);
                        },
                        None => {},
                    }
                }
            }
        }
    }
}

/// A failure while the arguments of a call are split is anchored in the file
/// of its tokens.
pub proof fn lemma_split_args_fail_in_file(toks: Seq<TokenV>, n: nat, file: FileRef)
    requires
        n <= toks.len(),
        all_in_file(toks, file),
    ensures
        split_args(toks, n) matches Err(e) ==> anchored(e, file),
    decreases n,
{
    if n > 0 {
        lemma_split_args_fail_in_file(toks, (n - 1) as nat, file);
        assert(toks[n - 1].scope().file == file);
    }
}

/// A failure in a call is anchored in the file of its tokens.
pub proof fn lemma_call_fails_in_file(toks: Seq<TokenV>, first: TextV, pos: int, file: FileRef)
    requires
        tree_ok(toks),
        all_in_file(toks, file),
        0 <= pos < toks.len(),
    ensures
        spec_call(toks, first, pos) matches Parsed::Fail(e) ==> anchored(e, file),
{
    lemma_path_end(toks, pos);
    let g = toks[path_end(toks, pos)];
    assert(g.scope().file == file);
    if g is Group {
        let inner = g->Group_0.tokens;
        assert(tree_ok(inner));
        assert(all_in_file(inner, file));
        lemma_split_args_fail_in_file(inner, (inner.len() - 1) as nat, file);
        assert(inner.last().scope().file == file);
    }
}

/// A failure in a statement is anchored in the file of its tokens.
pub proof fn lemma_statement_fails_in_file(toks: Seq<TokenV>, pos: int, file: FileRef)
    requires
        tree_ok(toks),
        all_in_file(toks, file),
        0 <= pos,
        pos + 1 < toks.len(),
        !(toks[pos] is End),
    ensures
        spec_statement(toks, pos) matches Parsed::Fail(e) ==> anchored(e, file),
    decreases toks, 0nat,
{
    let t = toks[pos];
    let u = toks[pos + 1];
    assert(t.scope().file == file);
    assert(u.scope().file == file);
    if t.is_ident_w("unsafe"@) || t.is_ident_w("at"@) {
    } else if t is Ident {
        lemma_call_fails_in_file(toks, t->Ident_0, pos + 1, file);
        match spec_call(toks, t->Ident_0, pos + 1) {
            Parsed::Done(call, q) => {
                if 0 <= q < toks.len() && toks[q] is Group {
                    let inner = toks[q]->Group_0.tokens;
                    assert(tree_ok(inner));
                    assert(all_in_file(inner, file));
                    lemma_statements_fail_in_file(inner, 0, Seq::empty(), file);
                }
            },
            Parsed::Fail(_) => {},
        }
    } else if t.is_sep_w('|') {
        if u is Ident {
            let eq = toks[pos + 2];
            assert(eq.scope().file == file);
            if eq is Symbol {
                let callee = toks[pos + 3];
                assert(callee.scope().file == file);
                if callee is Ident {
                    lemma_call_fails_in_file(toks, callee->Ident_0, pos + 4, file);
                }
            }
        }
    }
}

/// A failure among the statements of a body is anchored in the file of its
/// tokens.
pub proof fn lemma_statements_fail_in_file(
    toks: Seq<TokenV>,
    pos: int,
    acc: Seq<StatementV>,
    file: FileRef,
)
    requires
        tree_ok(toks),
        all_in_file(toks, file),
    ensures
        spec_statements(toks, pos, acc) matches Err(e) ==> anchored(e, file),
    decreases toks, toks.len() - pos + 1,
{
    if !(pos < 0 || pos + 1 >= toks.len() || toks[pos] is End) {
        lemma_statement_fails_in_file(toks, pos, file);
        match spec_statement(toks, pos) {
            Parsed::Done(st, q) => {
                if pos < q <= toks.len() {
                    lemma_statements_fail_in_file(
                        toks,
                        q,
                        match st {
                            Some(st) => acc.push(st),
                            None => acc,
                        },
                        file,
                    );
                }
            },
            Parsed::Fail(_) => {},
        }
    }
}

/// A failure in a scoreboard declaration is anchored in the file of its
/// tokens.
pub proof fn lemma_scoreboard_fails_in_file(
    toks: Seq<TokenV>,
    pos: int,
    keyword: TextV,
    file: FileRef,
)
    requires
        tree_ok(toks),
        all_in_file(toks, file),
        0 <= pos < toks.len(),
    ensures
        spec_parse_scoreboard(toks, pos, keyword) matches Parsed::Fail(e) ==> anchored(e, file),
{
    let pos1 = advance(toks, pos);
    let pos2 = advance(toks, pos1);
    assert(toks[pos].scope().file == file);
    assert(toks[pos1].scope().file == file);
    assert(toks[pos2].scope().file == file);
}

/// A failure in a function declaration is anchored in the file of its
/// tokens.
pub proof fn lemma_function_fails_in_file(
    toks: Seq<TokenV>,
    pos: int,
    keyword: TextV,
    file: FileRef,
)
    requires
        tree_ok(toks),
        all_in_file(toks, file),
        0 <= pos < toks.len(),
    ensures
        spec_parse_function(toks, pos, keyword) matches Parsed::Fail(e) ==> anchored(e, file),
{
    let pos1 = advance(toks, pos);
    let pos2 = advance(toks, pos1);
    let pos3 = advance(toks, pos2);
    let pos4 = advance(toks, pos3);
    assert(toks[pos].scope().file == file);
    assert(toks[pos1].scope().file == file);
    assert(toks[pos2].scope().file == file);
    assert(toks[pos3].scope().file == file);
    assert(toks[pos4].scope().file == file);
    let t1 = toks[pos1];
    if t1 is Group {
        let inner = t1->Group_0.tokens;
        assert(tree_ok(inner));
        assert(all_in_file(inner, file));
        lemma_fun_args_fail_in_file(inner, (inner.len() - 1) as nat, t1->Group_0.scope, file);
    }
}

/// A failure in an inline declaration is anchored in the file of its tokens.
pub proof fn lemma_inline_fails_in_file(
    toks: Seq<TokenV>,
    pos: int,
    keyword: TextV,
    file: FileRef,
)
    requires
        tree_ok(toks),
        all_in_file(toks, file),
        0 <= pos < toks.len(),
    ensures
        spec_parse_inline(toks, pos, keyword) matches Parsed::Fail(e) ==> anchored(e, file),
{
    let pos1 = advance(toks, pos);
    let pos2 = advance(toks, pos1);
    assert(toks[pos].scope().file == file);
    assert(toks[pos1].scope().file == file);
    assert(toks[pos2].scope().file == file);
    let t1 = toks[pos1];
    if t1 is Group {
        let inner = t1->Group_0.tokens;
        assert(tree_ok(inner));
        assert(all_in_file(inner, file));
        lemma_inline_args_fail_in_file(inner, 0, Seq::empty(), file);
    }
}

/// A failure among the items of a datapack is anchored in the file of its
/// tokens.
pub proof fn lemma_items_fail_in_file(toks: Seq<TokenV>, pos: int, acc: DatapackV, file: FileRef)
    requires
        tree_ok(toks),
        all_in_file(toks, file),
    ensures
        spec_items(toks, pos, acc) matches Err(e) ==> anchored(e, file),
    decreases toks.len() - pos,
{
    if !(pos < 0 || pos + 1 >= toks.len() || toks[pos] is End) {
        assert(toks[pos].scope().file == file);
        if toks[pos] is Ident {
            let keyword = toks[pos]->Ident_0;
            if keyword.value == "function"@ {
                lemma_function_fails_in_file(toks, pos + 1, keyword, file);
                match spec_parse_function(toks, pos + 1, keyword) {
                    Parsed::Done(function, q) => {
                        if pos < q < toks.len() {
                            lemma_items_fail_in_file(
                                toks,
                                q,
                                DatapackV {
                                    name: acc.name,
                                    functions: acc.functions.push(function),
                                    scoreboards: acc.scoreboards,
                                    inlines: acc.inlines,
                                },
                                file,
                            );
                        }
                    },
                    Parsed::Fail(_) => {},
                }
            } else if keyword.value == "scoreboard"@ {
                lemma_scoreboard_fails_in_file(toks, pos + 1, keyword, file);
                match spec_parse_scoreboard(toks, pos + 1, keyword) {
                    Parsed::Done(scoreboard, q) => {
                        if pos < q < toks.len() {
                            lemma_items_fail_in_file(
                                toks,
                                q,
                                DatapackV {
                                    name: acc.name,
                                    functions: acc.functions,
                                    scoreboards: acc.scoreboards.push(scoreboard),
                                    inlines: acc.inlines,
                                },
                                file,
                            );
                        }
                    },
                    Parsed::Fail(_) => {},
                }
            } else if keyword.value == "inline"@ {
                lemma_inline_fails_in_file(toks, pos + 1, keyword, file);
                match spec_parse_inline(toks, pos + 1, keyword) {
                    Parsed::Done(inline, q) => {
                        if pos < q < toks.len() {
                            lemma_items_fail_in_file(
                                toks,
                                q,
                                DatapackV {
                                    name: acc.name,
                                    functions: acc.functions,
                                    scoreboards: acc.scoreboards,
                                    inlines: acc.inlines.push(inline),
                                },
                                file,
                            );
                        }
                    },
                    Parsed::Fail(_) => {},
                }
            }
        }
    }
}

/// Every failure of the parser points into the source: it is anchored at a
/// span of the file that the tokens were read from.
pub proof fn lemma_parse_fails_in_file(toks: Seq<TokenV>, pos: int, file: FileRef)
    requires
        tree_ok(toks),
        all_in_file(toks, file),
        0 <= pos < toks.len(),
    ensures
        spec_parse(toks, pos) matches Err(e) ==> anchored(e, file),
{
    let pos1 = advance(toks, pos);
    let pos2 = advance(toks, pos1);
    let pos3 = advance(toks, pos2);
    assert(toks[pos].scope().file == file);
    assert(toks[pos1].scope().file == file);
    assert(toks[pos2].scope().file == file);
    let t1 = toks[pos1];
    if t1 is Ident {
        lemma_items_fail_in_file(toks, pos3, crate::ast::spec_empty_datapack(t1->Ident_0), file);
    }
}

} // verus!
