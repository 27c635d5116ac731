//! What holds of every token sequence that the tokenizer produces: it is
//! well nested, and its tokens tile the text they were read from.

use vstd::prelude::*;
use crate::errors::{DiagnosticV, ErrorKind};
use crate::files::FileRef;
use crate::lexer::{
    lemma_run_end,
    lex_run,
    lex_step,
    run_end,
    scope_of,
    spec_delimiter,
    spec_in_ident,
    spec_is_ident_sep,
    spec_is_sep,
    spec_is_symbol,
    spec_lex,
    spec_starts_ident,
    spec_starts_num,
    CharClass,
    LexRun,
    LexStep,
};
use crate::text::{char_is_whitespace, spec_parse_digits, IntError};
use crate::tokens::{all_in_file, tree_ok, End, TokenV};

verus! {

/// Nothing but white space stands in `s[from..to]`.
pub open spec fn all_blank(s: Seq<char>, from: int, to: int) -> bool {
    forall|i: int| from <= i < to && 0 <= i < s.len() ==> char_is_whitespace(#[trigger] s[i])
}

/// The token holds what the text shows under its span, and the span is as
/// long as the token's kind allows. An identifier begins with a character
/// that may start one and goes on through all that may continue it; a string
/// literal spans its two quotes, with no quote between them; an integer
/// literal reaches to the next character that ends one; a separator is one
/// separator character; a symbol is a run of operator characters that the
/// next character does not continue; a group spans from its opening to its
/// closing delimiter, which its end marker covers, and its inner tokens tile
/// what stands between the two.
pub open spec fn token_fits(s: Seq<char>, t: TokenV) -> bool
    decreases t, 0nat,
{
    let a = t.scope().start as int;
    let b = t.scope().end as int;
    &&& a <= b <= s.len()
    &&& match t {
        TokenV::Ident(e) => {
            &&& a < b
            &&& e.value == s.subrange(a, b)
            &&& spec_starts_ident(s[a])
            &&& forall|i: int| a < i < b ==> spec_in_ident(#[trigger] s[i])
            &&& (b < s.len() ==> !spec_in_ident(s[b]))
        },
        TokenV::Str(e) => {
            &&& a + 2 <= b
            &&& s[a] == '"'
            &&& s[b - 1] == '"'
            &&& e.value == s.subrange(a + 1, b - 1)
            &&& forall|i: int| a < i < b - 1 ==> #[trigger] s[i] != '"'
        },
        TokenV::Int(e) => {
            &&& a < b
            &&& spec_parse_digits(s.subrange(a, b)) == Ok::<i32, IntError>(e.value)
            &&& (b < s.len() ==> spec_is_ident_sep(s[b]))
        },
        TokenV::Sep(e) => b == a + 1 && s[a] == e.value && spec_is_sep(e.value),
        TokenV::Symbol(e) => {
            &&& a < b
            &&& e.value == s.subrange(a, b)
            &&& forall|i: int| a <= i < b ==> spec_is_symbol(#[trigger] s[i])
            &&& (b < s.len() ==> !spec_is_symbol(s[b]))
        },
        TokenV::End(_) => true,
        TokenV::Group(g) => {
            &&& a + 2 <= b
            &&& s[a] == g.delimiter.spec_opening()
            &&& s[b - 1] == g.delimiter.spec_closing()
            &&& g.tokens.len() > 0
            &&& g.tokens.last() == TokenV::End(End { scope: scope_of(t.scope().file, b - 1, b) })
            &&& tiles(s, g.tokens, 0, a + 1, b - 1)
        },
    }
}

/// The tokens of `toks` from the `k`-th on tile `s[pos..to]`: they come in
/// source order without overlap, each holds what the text shows under its
/// span, nothing but white space stands before, between and behind them, and
/// the last of them is the end marker.
pub open spec fn tiles(s: Seq<char>, toks: Seq<TokenV>, k: nat, pos: int, to: int) -> bool
    decreases toks, toks.len() - k,
{
    if k + 1 >= toks.len() {
        k + 1 == toks.len() && toks[k as int] is End && all_blank(s, pos, to)
    } else {
        let t = toks[k as int];
        &&& !(t is End)
        &&& pos <= t.scope().start
        &&& all_blank(s, pos, t.scope().start as int)
        &&& token_fits(s, t)
        &&& t.scope().end <= to
        &&& tiles(s, toks, k + 1, t.scope().end as int, to)
    }
}

/// Tiling by a sequence behind a first token is tiling by the sequence
/// without it.
pub proof fn lemma_tiles_shift(
    s: Seq<char>,
    t: TokenV,
    rest: Seq<TokenV>,
    k: nat,
    pos: int,
    to: int,
)
    ensures
        tiles(s, seq![t] + rest, k + 1, pos, to) == tiles(s, rest, k, pos, to),
    decreases rest.len() - k,
{
    let all = seq![t] + rest;
    assert(all.len() == rest.len() + 1);
    if k + 1 >= rest.len() {
        if k + 1 == rest.len() {
            assert(all[(k + 1) as int] == rest[k as int]);
        }
    } else {
        assert(all[(k + 1) as int] == rest[k as int]);
        lemma_tiles_shift(s, t, rest, k + 1, rest[k as int].scope().end as int, to);
    }
}

/// A tiling stays one when white space is added in front of it.
pub proof fn lemma_tiles_blank_before(s: Seq<char>, toks: Seq<TokenV>, pos: int, to: int)
    requires
        0 <= pos < s.len(),
        char_is_whitespace(s[pos]),
        tiles(s, toks, 0, pos + 1, to),
    ensures
        tiles(s, toks, 0, pos, to),
{
}

/// Putting a token that is no end marker before a well-nested sequence
/// leaves it well nested.
pub proof fn lemma_tree_ok_prepend(t: TokenV, rest: Seq<TokenV>)
    requires
        tree_ok(rest),
        !(t is End),
        t is Group ==> tree_ok(t->Group_0.tokens),
    ensures
        tree_ok(seq![t] + rest),
{
    let all = seq![t] + rest;
    assert(all.last() == rest.last());
    assert forall|k: int| 0 <= k < all.len() - 1 implies !(#[trigger] all[k] is End) by {
        if k > 0 {
            assert(all[k] == rest[k - 1]);
        }
    }
    assert forall|k: int| 0 <= k < all.len() && (#[trigger] all[k]) is Group implies tree_ok(
        all[k]->Group_0.tokens,
    ) by {
        if k > 0 {
            assert(all[k] == rest[k - 1]);
        }
    }
}

/// Putting a token of the file before a sequence of the file leaves a
/// sequence of the file.
pub proof fn lemma_all_in_file_prepend(t: TokenV, rest: Seq<TokenV>, file: FileRef)
    requires
        all_in_file(rest, file),
        t.scope().file == file,
        t is Group ==> all_in_file(t->Group_0.tokens, file),
    ensures
        all_in_file(seq![t] + rest, file),
{
    let all = seq![t] + rest;
    assert forall|k: int| 0 <= k < all.len() implies (#[trigger] all[k]).scope().file == file && (
    all[k] is Group ==> all_in_file(all[k]->Group_0.tokens, file)) by {
        if k > 0 {
            assert(all[k] == rest[k - 1]);
        }
    }
}

/// What one step of the tokenizer gives: a token that begins at `i`, is no
/// end marker, holds what the text shows under its span and is well nested;
/// or one skipped white-space character.
pub proof fn lemma_lex_step_fits(s: Seq<char>, file: FileRef, i: int)
    requires
        0 <= i < s.len() <= usize::MAX,
    ensures
        match lex_step(s, file, i) {
            LexStep::Token(t, n) => {
                &&& i < n <= s.len()
                &&& t.scope() == scope_of(file, i, n)
                &&& !(t is End)
                &&& token_fits(s, t)
                &&& (t is Group ==> tree_ok(t->Group_0.tokens) && all_in_file(
                    t->Group_0.tokens,
                    file,
                ))
            },
            LexStep::Skip(n) => n == i + 1 && char_is_whitespace(s[i]),
            LexStep::Fail(_) => true,
        },
    decreases s.len() - i, 0nat,
{
    lemma_run_end(s, i + 1, CharClass::Quoted);
    lemma_run_end(s, i + 1, CharClass::Symbol);
    lemma_run_end(s, i + 1, CharClass::Number);
    lemma_run_end(s, i + 1, CharClass::Ident);
    if s[i] == '"' {
        let q = run_end(s, i + 1, CharClass::Quoted);
        assert forall|k: int| i < k < q implies #[trigger] s[k] != '"' by {
            assert(CharClass::Quoted.spec_has(s[k]));
        }
    } else if spec_is_sep(s[i]) {
    } else if spec_is_symbol(s[i]) {
        let e = run_end(s, i + 1, CharClass::Symbol);
        assert forall|k: int| i <= k < e implies spec_is_symbol(#[trigger] s[k]) by {
            if k > i {
                assert(CharClass::Symbol.spec_has(s[k]));
            }
        }
    } else if spec_starts_num(s[i]) {
        let e = run_end(s, i + 1, CharClass::Number);
        if e < s.len() {
            assert(!CharClass::Number.spec_has(s[e]));
        }
    } else if spec_starts_ident(s[i]) {
        let e = run_end(s, i + 1, CharClass::Ident);
        assert forall|k: int| i < k < e implies spec_in_ident(#[trigger] s[k]) by {
            assert(CharClass::Ident.spec_has(s[k]));
        }
        if e < s.len() {
            assert(!CharClass::Ident.spec_has(s[e]));
        }
    } else if char_is_whitespace(s[i]) {
    } else if spec_delimiter(s[i]) is Some {
        let d = spec_delimiter(s[i])->Some_0;
        lemma_lex_run_tiles(s, file, i + 1, Some(d.spec_closing()));
    }
}

/// What a run of the tokenizer gives: a well-nested sequence that tiles the
/// text from `j` up to the closing delimiter, or up to the end of the text
/// where no delimiter is awaited, and whose end marker covers that delimiter,
/// or nothing at the end of the text.
pub proof fn lemma_lex_run_tiles(s: Seq<char>, file: FileRef, j: int, until: Option<char>)
    requires
        0 <= j <= s.len() <= usize::MAX,
    ensures
        match lex_run(s, file, j, until) {
            LexRun::Closed(toks, n) => {
                &&& tree_ok(toks)
                &&& all_in_file(toks, file)
                &&& match until {
                    Some(c) => {
                        &&& j < n <= s.len()
                        &&& s[n - 1] == c
                        &&& toks.last() == TokenV::End(End { scope: scope_of(file, n - 1, n) })
                        &&& tiles(s, toks, 0, j, n - 1)
                    },
                    None => {
                        &&& n == s.len()
                        &&& toks.last() == TokenV::End(End { scope: scope_of(file, n, n) })
                        &&& tiles(s, toks, 0, j, n)
                    },
                }
            },
            LexRun::Unclosed => until is Some,
            LexRun::Fail(_) => true,
        },
    decreases s.len() - j, 1nat,
{
    if j >= s.len() {
        match lex_run(s, file, j, until) {
            LexRun::Closed(toks, n) => {
                assert(toks.len() == 1);
                assert(tiles(s, toks, 0, j, n));
            },
            _ => {},
        }
    } else if until == Some(s[j]) {
        let toks = seq![TokenV::End(End { scope: scope_of(file, j, j + 1) })];
        assert(toks.len() == 1);
        assert(tiles(s, toks, 0, j, j));
    } else {
        lemma_lex_step_fits(s, file, j);
        match lex_step(s, file, j) {
            LexStep::Token(t, m) => {
                lemma_lex_run_tiles(s, file, m, until);
                match lex_run(s, file, m, until) {
                    LexRun::Closed(rest, n) => {
                        let toks = seq![t] + rest;
                        let to = if until is Some {
                            n - 1
                        } else {
                            n
                        };
                        lemma_tree_ok_prepend(t, rest);
                        lemma_all_in_file_prepend(t, rest, file);
                        lemma_tiles_shift(s, t, rest, 0, m, to);
                        assert(toks[0] == t);
                        assert(toks.last() == rest.last());
                        assert(tiles(s, toks, 0, j, to));
                    },
                    _ => {},
                }
            },
            LexStep::Skip(m) => {
                lemma_lex_run_tiles(s, file, m, until);
                match lex_run(s, file, m, until) {
                    LexRun::Closed(toks, n) => {
                        let to = if until is Some {
                            n - 1
                        } else {
                            n
                        };
                        lemma_tiles_blank_before(s, toks, j, to);
                    },
                    _ => {},
                }
            },
            LexStep::Fail(_) => {},
        }
    }
}

/// Tokenizing round-trips up to white space: the tokens of a whole text tile
/// it from its first character to its last, so that the text is its tokens'
/// source in order with nothing but white space between them. The sequence
/// and every group in it end with exactly one end marker, every group spans
/// exactly one opening and one closing delimiter, and every span lies in the
/// file that was read.
pub proof fn lemma_lex_tiles_source(s: Seq<char>, file: FileRef)
    requires
        s.len() <= usize::MAX,
    ensures
        !(spec_lex(s, file) is Unclosed),
        spec_lex(s, file) matches LexRun::Closed(toks, n) ==> {
            &&& n == s.len()
            &&& tree_ok(toks)
            &&& all_in_file(toks, file)
            &&& toks.last() == TokenV::End(End { scope: scope_of(file, n, n) })
            &&& tiles(s, toks, 0, 0, s.len() as int)
        },
{
    lemma_lex_run_tiles(s, file, 0, None);
}

/// `t` stands in `toks` at or behind the `k`-th place, or in a group that
/// stands there, at any depth.
pub open spec fn occurs(toks: Seq<TokenV>, k: nat, t: TokenV) -> bool
    decreases toks, toks.len() - k,
{
    if k >= toks.len() {
        false
    } else {
        ||| toks[k as int] == t
        ||| (toks[k as int] is Group && occurs(toks[k as int]->Group_0.tokens, 0, t))
        ||| occurs(toks, k + 1, t)
    }
}

/// In a tiling every token but the end markers, at any depth, holds what the
/// text shows under its span.
pub proof fn lemma_every_token_fits(
    s: Seq<char>,
    toks: Seq<TokenV>,
    k: nat,
    pos: int,
    to: int,
    t: TokenV,
)
    requires
        tiles(s, toks, k, pos, to),
        occurs(toks, k, t),
        !(t is End),
    ensures
        token_fits(s, t),
    decreases toks, toks.len() - k,
{
    if k + 1 >= toks.len() {
        assert(!occurs(toks, k + 1, t));
    } else {
        let u = toks[k as int];
        if u == t {
        } else if u is Group && occurs(u->Group_0.tokens, 0, t) {
            let a = u.scope().start as int;
            let b = u.scope().end as int;
            assert(token_fits(s, u));
            assert(tiles(s, u->Group_0.tokens, 0, a + 1, b - 1));
            lemma_every_token_fits(s, u->Group_0.tokens, 0, a + 1, b - 1, t);
        } else {
            lemma_every_token_fits(s, toks, k + 1, u.scope().end as int, to, t);
        }
    }
}

/// An arrow is never two tokens: among the tokens of a text, at any depth,
/// no symbol ends between a `-` and the `>` that follows it directly, and no
/// separator stands on either of the two.
pub proof fn lemma_arrow_is_never_split(s: Seq<char>, file: FileRef, i: int, t: TokenV)
    requires
        s.len() <= usize::MAX,
        0 <= i,
        i + 1 < s.len(),
        s[i] == '-',
        s[i + 1] == '>',
        spec_lex(s, file) matches LexRun::Closed(toks, _) && occurs(toks, 0, t),
    ensures
        t is Symbol ==> t.scope().end != i + 1,
        t is Sep ==> t.scope().start != i && t.scope().start != i + 1,
{
    lemma_lex_tiles_source(s, file);
    let toks = spec_lex(s, file)->Closed_0;
    if !(t is End) {
        lemma_every_token_fits(s, toks, 0, 0, s.len() as int, t);
    }
}

/// An arrow is one token: where the tokenizer reads a token at a `-` that a
/// `>` follows directly, the token is a single symbol that holds both
/// characters, and it is exactly `->` unless more operator characters follow.
pub proof fn lemma_arrow_is_one_symbol(s: Seq<char>, file: FileRef, i: int)
    requires
        0 <= i,
        i + 1 < s.len(),
        s[i] == '-',
        s[i + 1] == '>',
    ensures
        lex_step(s, file, i) matches LexStep::Token(t, n) && t matches TokenV::Symbol(e) && {
            &&& n >= i + 2
            &&& e.scope == scope_of(file, i, n)
            &&& e.value.len() >= 2
            &&& e.value[0] == '-'
            &&& e.value[1] == '>'
            &&& (i + 2 == s.len() || !spec_is_symbol(s[i + 2]) ==> n == i + 2 && e.value == seq![
                '-',
                '>',
            ])
        },
{
    lemma_run_end(s, i + 1, CharClass::Symbol);
    lemma_run_end(s, i + 2, CharClass::Symbol);
    let e = run_end(s, i + 1, CharClass::Symbol);
    assert(CharClass::Symbol.spec_has(s[i + 1]));
    assert(e == run_end(s, i + 2, CharClass::Symbol));
    if i + 2 == s.len() || !spec_is_symbol(s[i + 2]) {
        assert(e == i + 2);
        assert(s.subrange(i, e) =~= seq!['-', '>']);
    }
}

/// The kinds of failure that tokenizing reports.
pub open spec fn is_lexical(kind: ErrorKind) -> bool {
    kind == ErrorKind::UnterminatedString || kind == ErrorKind::UnmatchedDelimiter || kind
        == ErrorKind::MalformedInteger || kind == ErrorKind::IllegalCharacter
}

/// A failure of a lexical kind, anchored at a span within the text `s` of
/// the file `file`, without context or suggested fix.
pub open spec fn lexical_failure(s: Seq<char>, file: FileRef, d: DiagnosticV) -> bool {
    &&& is_lexical(d.kind)
    &&& d.scope.file == file
    &&& d.scope.start < d.scope.end <= s.len()
    &&& d.context is None
    &&& d.help is None
}

/// A failure of one step of the tokenizer is a lexical one.
pub proof fn lemma_lex_step_fails_lexically(s: Seq<char>, file: FileRef, i: int)
    requires
        0 <= i < s.len() <= usize::MAX,
    ensures
        lex_step(s, file, i) matches LexStep::Fail(d) ==> lexical_failure(s, file, d),
    decreases s.len() - i, 0nat,
{
    lemma_run_end(s, i + 1, CharClass::Number);
    if s[i] == '"' || spec_is_sep(s[i]) || spec_is_symbol(s[i]) || spec_starts_num(s[i])
        || spec_starts_ident(s[i]) || char_is_whitespace(s[i]) {
    } else if spec_delimiter(s[i]) is Some {
        let d = spec_delimiter(s[i])->Some_0;
        lemma_lex_run_fails_lexically(s, file, i + 1, Some(d.spec_closing()));
    }
}

/// A failure of a run of the tokenizer is a lexical one.
pub proof fn lemma_lex_run_fails_lexically(
    s: Seq<char>,
    file: FileRef,
    j: int,
    until: Option<char>,
)
    requires
        0 <= j <= s.len() <= usize::MAX,
    ensures
        lex_run(s, file, j, until) matches LexRun::Fail(d) ==> lexical_failure(s, file, d),
    decreases s.len() - j, 1nat,
{
    if j < s.len() && until != Some(s[j]) {
        lemma_lex_step_fails_lexically(s, file, j);
        match lex_step(s, file, j) {
            LexStep::Token(_, m) => {
                if j < m <= s.len() {
                    lemma_lex_run_fails_lexically(s, file, m, until);
                }
            },
            LexStep::Skip(m) => {
                if j < m <= s.len() {
                    lemma_lex_run_fails_lexically(s, file, m, until);
                }
            },
            LexStep::Fail(_) => {},
        }
    }
}

/// Every failure of the tokenizer is of a lexical kind: an unterminated
/// string, an unmatched delimiter, a malformed integer or an illegal
/// character. It is anchored at a span of at least one character within the
/// text.
pub proof fn lemma_lex_fails_lexically(s: Seq<char>, file: FileRef)
    requires
        s.len() <= usize::MAX,
    ensures
        spec_lex(s, file) matches LexRun::Fail(d) ==> lexical_failure(s, file, d),
{
    lemma_lex_run_fails_lexically(s, file, 0, None);
}

} // verus!
