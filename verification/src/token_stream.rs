//! Cursors over a token sequence. Reading the end marker never moves a
//! cursor, so reading past the end is safe and keeps yielding the marker.

use vstd::prelude::*;
use crate::ast::{Path, PathV};
use crate::tokens::{clone_tokens, stream_ok, tokens_view, Ident, TextV, Token, TokenV};

verus! {

/// Where a cursor at `pos` stands after reading one token: one further,
/// unless the token read is the end marker.
pub open spec fn advance(toks: Seq<TokenV>, pos: int) -> int {
    if toks[pos] is End {
        pos
    } else {
        pos + 1
    }
}

/// A cursor with one slot to remember a position and return to it.
#[derive(Debug)]
pub struct TokenStream {
    pub index: usize,
    pub saved_index: Option<usize>,
    pub tokens: Vec<Token>,
}

impl TokenStream {
    /// What the tokens hold.
    pub open spec fn toks(&self) -> Seq<TokenV> {
        tokens_view(self.tokens@)
    }

    /// The sequence ends with an end marker, and the cursor and the
    /// remembered position stand within it.
    pub open spec fn wf(&self) -> bool {
        &&& stream_ok(self.toks())
        &&& self.index < self.tokens@.len()
        &&& (self.saved_index matches Some(saved) ==> saved < self.tokens@.len())
    }

    /// A cursor at the first token of `tokens`, with nothing remembered.
    pub fn new(tokens: Vec<Token>) -> (r: Self)
        requires
            stream_ok(tokens_view(tokens@)),
        ensures
            r.wf(),
            r.tokens == tokens,
            r.index == 0,
            r.saved_index is None,
    {
        TokenStream { tokens, saved_index: None, index: 0 }
    }

    /// Remembers the current position, in place of any remembered before.
    pub fn save(&mut self)
        requires
            old(self).wf(),
        ensures
            final(self).wf(),
            final(self).tokens == old(self).tokens,
            final(self).index == old(self).index,
            final(self).saved_index == Some(old(self).index),
    {
        self.saved_index = Some(self.index);
    }

    /// Goes back to the remembered position, which stays remembered.
    pub fn load_save(&mut self)
        requires
            old(self).wf(),
            old(self).saved_index is Some,
        ensures
            final(self).wf(),
            final(self).tokens == old(self).tokens,
            final(self).saved_index == old(self).saved_index,
            final(self).index == old(self).saved_index->Some_0,
    {
        match self.saved_index {
            Some(saved) => {
                self.index = saved;
            },
            None => {},
        }
    }

    /// The token at the cursor.
    pub fn current(&self) -> (t: &Token)
        requires
            self.wf(),
        ensures
            *t == self.tokens@[self.index as int],
            t@ == self.toks()[self.index as int],
    {
        &self.tokens[self.index]
    }

    /// The token at the cursor; the cursor then moves one further, unless the
    /// token is the end marker.
    pub fn next(&mut self) -> (t: &Token)
        requires
            old(self).wf(),
        ensures
            final(self).wf(),
            final(self).tokens == old(self).tokens,
            final(self).saved_index == old(self).saved_index,
            *t == old(self).tokens@[old(self).index as int],
            t@ == old(self).toks()[old(self).index as int],
            final(self).index == advance(old(self).toks(), old(self).index as int),
    {
        let at = self.index;
        let len = self.tokens.len();
        assert(at < len);
        if !self.tokens[at].is_end() {
            self.index += 1;
        }
        &self.tokens[at]
    }
}

/// How many pairs of a separator and an identifier follow one another from
/// `pos` on.
pub open spec fn path_pairs(toks: Seq<TokenV>, pos: int) -> nat
    decreases toks.len() - pos,
{
    if 0 <= pos && pos + 1 < toks.len() && toks[pos] is Sep && toks[pos + 1] is Ident {
        1 + path_pairs(toks, pos + 2)
    } else {
        0
    }
}

/// The path that begins with the identifier `first` and goes on with every
/// pair of a separator and an identifier from `pos` on.
pub open spec fn spec_path(toks: Seq<TokenV>, first: TextV, pos: int) -> PathV {
    let pairs = path_pairs(toks, pos);
    PathV {
        parts: Seq::new(
            pairs + 1,
            |m: int|
                if m == 0 {
                    first
                } else {
                    toks[pos + 2 * m - 1]->Ident_0
                },
        ),
        seps: Seq::new(pairs, |m: int| toks[pos + 2 * m]->Sep_0),
    }
}

/// Where the path that goes on from `pos` ends: at the first token that is
/// not a separator with an identifier behind it.
pub open spec fn path_end(toks: Seq<TokenV>, pos: int) -> int {
    pos + 2 * path_pairs(toks, pos)
}

/// A path ends within the sequence, before its end marker.
pub proof fn lemma_path_end(toks: Seq<TokenV>, pos: int)
    requires
        stream_ok(toks),
        0 <= pos < toks.len(),
    ensures
        pos <= path_end(toks, pos) < toks.len(),
    decreases toks.len() - pos,
{
    if pos + 1 < toks.len() && toks[pos] is Sep && toks[pos + 1] is Ident {
        lemma_path_end(toks, pos + 2);
    }
}

/// Reads the path that begins with the identifier `first` and goes on at
/// `pos`. Gives the path and the position of the first token behind it.
pub fn read_path(tokens: &Vec<Token>, first: &Ident, pos: usize) -> (r: (Path, usize))
    requires
        pos <= tokens.len(),
    ensures
        r.0@ == spec_path(tokens_view(tokens@), first@, pos as int),
        r.1 == path_end(tokens_view(tokens@), pos as int),
        pos <= r.1 <= tokens.len(),
{
    let ghost toks = tokens_view(tokens@);
    let ghost start = pos as int;
    let mut path = Path::new(first.clone());
    let mut cur: usize = pos;
    let mut pairs: usize = 0;
    let len = tokens.len();
    loop
        invariant
            toks == tokens_view(tokens@),
            len == tokens.len(),
            start == pos,
            cur == start + 2 * pairs,
            cur <= len,
            path_pairs(toks, start) == pairs + path_pairs(toks, cur as int),
            path@.parts.len() == pairs + 1,
            path@.seps.len() == pairs,
            path@.parts[0] == first@,
            forall|m: int| 1 <= m <= pairs ==> #[trigger] path@.parts[m] == toks[start + 2 * m - 1]->Ident_0,
            forall|m: int| 0 <= m < pairs ==> #[trigger] path@.seps[m] == toks[start + 2 * m]->Sep_0,
        ensures
            path_pairs(toks, cur as int) == 0,
        decreases len - cur,
    {
        if !(cur < len && len - cur > 1) {
            break ;
        }
        let sep = match &tokens[cur] {
            Token::Sep(sep) => *sep,
            _ => {
                break ;
            },
        };
        let part = match &tokens[cur + 1] {
            Token::Ident(part) => part.clone(),
            _ => {
                break ;
            },
        };
        path.push_part(sep, part);
        cur += 2;
        pairs += 1;
    }
    proof {
        assert(path@.parts =~= spec_path(toks, first@, start).parts);
        assert(path@.seps =~= spec_path(toks, first@, start).seps);
    }
    (path, cur)
}

/// A cursor over an owned token sequence.
#[derive(Debug)]
pub struct TokenIter {
    pub index: usize,
    pub tokens: Vec<Token>,
}

impl TokenIter {
    /// What the tokens hold.
    pub open spec fn toks(&self) -> Seq<TokenV> {
        tokens_view(self.tokens@)
    }

    /// The sequence ends with an end marker, and the cursor stands within it.
    pub open spec fn wf(&self) -> bool {
        &&& stream_ok(self.toks())
        &&& self.index < self.tokens@.len()
    }

    /// A cursor at the first token of `tokens`.
    pub fn new(tokens: Vec<Token>) -> (r: Self)
        requires
            stream_ok(tokens_view(tokens@)),
        ensures
            r.wf(),
            r.tokens == tokens,
            r.index == 0,
    {
        TokenIter { tokens, index: 0 }
    }

    /// The token at the cursor.
    pub fn current(&self) -> (t: &Token)
        requires
            self.wf(),
        ensures
            *t == self.tokens@[self.index as int],
            t@ == self.toks()[self.index as int],
    {
        &self.tokens[self.index]
    }

    /// The token before the cursor, if the cursor has moved.
    pub fn prev(&self) -> (t: Option<&Token>)
        requires
            self.wf(),
        ensures
            self.index == 0 ==> t is None,
            self.index > 0 ==> t is Some && *t->Some_0 == self.tokens@[self.index - 1]
                && t->Some_0@ == self.toks()[self.index - 1],
    {
        if self.index == 0 {
            None
        } else {
            Some(&self.tokens[self.index - 1])
        }
    }

    /// The token at the cursor; the cursor then moves one further, unless the
    /// token is the end marker.
    pub fn next(&mut self) -> (t: &Token)
        requires
            old(self).wf(),
        ensures
            final(self).wf(),
            final(self).tokens == old(self).tokens,
            *t == old(self).tokens@[old(self).index as int],
            t@ == old(self).toks()[old(self).index as int],
            final(self).index == advance(old(self).toks(), old(self).index as int),
    {
        let at = self.index;
        let len = self.tokens.len();
        assert(at < len);
        if !self.tokens[at].is_end() {
            self.index += 1;
        }
        &self.tokens[at]
    }

    /// Reads a path whose first identifier is the token just read: every
    /// separator with an identifier behind it is taken in, and the cursor is
    /// left at the first token that breaks the pattern. Where the token just
    /// read is no identifier, or none was read, there is no path and the
    /// cursor stays.
    pub fn get_path(&mut self) -> (r: Option<Path>)
        requires
            old(self).wf(),
        ensures
            final(self).wf(),
            final(self).tokens == old(self).tokens,
            old(self).index > 0 && old(self).toks()[old(self).index - 1] is Ident ==> r is Some
                && r->Some_0@ == spec_path(
                old(self).toks(),
                old(self).toks()[old(self).index - 1]->Ident_0,
                old(self).index as int,
            ) && final(self).index == path_end(old(self).toks(), old(self).index as int),
            !(old(self).index > 0 && old(self).toks()[old(self).index - 1] is Ident) ==> r is None
                && final(self).index == old(self).index,
    {
        if self.index == 0 {
            return None;
        }
        match &self.tokens[self.index - 1] {
            Token::Ident(first) => {
                proof {
                    lemma_path_end(self.toks(), self.index as int);
                }
                let (path, end) = read_path(&self.tokens, first, self.index);
                self.index = end;
                Some(path)
            },
            _ => None,
        }
    }
}

/// What can be read as a list of tokens.
pub trait TokenList {
    /// The tokens of the list.
    spec fn list(&self) -> Seq<Token>;

    /// The tokens.
    fn as_list(&self) -> (r: &Vec<Token>)
        ensures
            r@ == self.list(),
    ;

    /// A cursor at the first token of a copy of the list, which must end with
    /// an end marker.
    fn iter_tokens(&self) -> (r: TokenIter)
        requires
            stream_ok(tokens_view(self.list())),
        ensures
            r.wf(),
            r.index == 0,
            r.toks() == tokens_view(self.list()),
    ;
}

impl TokenList for Vec<Token> {
    open spec fn list(&self) -> Seq<Token> {
        self@
    }

    fn as_list(&self) -> (r: &Vec<Token>) {
        self
    }

    fn iter_tokens(&self) -> (r: TokenIter) {
        TokenIter::new(clone_tokens(self))
    }
}

} // verus!
