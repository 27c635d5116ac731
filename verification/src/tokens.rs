//! Tokens: the lexical units of a source file. A matched pair of delimiters
//! is one token that holds the tokens between them.

use vstd::prelude::*;
use crate::errors::{
    error,
    opt_help,
    opt_str_text,
    CompileErrV,
    CompileResult,
    DiagnosticV,
    ErrorInfo,
    ErrorKind,
    Help,
    HelpV,
};
use crate::files::FileRef;
use crate::span::SrcScope;
use crate::styling::{Fmt, BOLD, LIGHT_WHITE};
use crate::text::{
    debug_char,
    debug_char_text,
    debug_string,
    debug_text,
    int_to_string,
    signed_decimal,
};

verus! {

/// The four pairs of delimiters.
#[derive(Clone, Copy, Debug, PartialEq, Eq, Structural)]
pub enum Delimiter {
    Parentheses,
    Brackets,
    CurlyBrackets,
    AngledBrackets,
}

impl Delimiter {
    /// The character that opens the pair.
    pub open spec fn spec_opening(self) -> char {
        match self {
            Delimiter::Parentheses => '(',
            Delimiter::Brackets => '[',
            Delimiter::CurlyBrackets => '{',
            Delimiter::AngledBrackets => '<',
        }
    }

    /// The character that closes the pair.
    pub open spec fn spec_closing(self) -> char {
        match self {
            Delimiter::Parentheses => ')',
            Delimiter::Brackets => ']',
            Delimiter::CurlyBrackets => '}',
            Delimiter::AngledBrackets => '>',
        }
    }

    /// The name of the pair, as diagnostics print it.
    pub open spec fn spec_name(self) -> Seq<char> {
        match self {
            Delimiter::Parentheses => "Parentheses"@,
            Delimiter::Brackets => "Brackets"@,
            Delimiter::CurlyBrackets => "CurlyBrackets"@,
            Delimiter::AngledBrackets => "AngledBrackets"@,
        }
    }

    /// The character that opens the pair.
    pub fn opening(&self) -> (c: char)
        ensures
            c == self.spec_opening(),
    {
        match self {
            Delimiter::Parentheses => '(',
            Delimiter::Brackets => '[',
            Delimiter::CurlyBrackets => '{',
            Delimiter::AngledBrackets => '<',
        }
    }

    /// The character that closes the pair.
    pub fn closing(&self) -> (c: char)
        ensures
            c == self.spec_closing(),
    {
        match self {
            Delimiter::Parentheses => ')',
            Delimiter::Brackets => ']',
            Delimiter::CurlyBrackets => '}',
            Delimiter::AngledBrackets => '>',
        }
    }

    /// The name of the pair, as diagnostics print it.
    pub fn name(&self) -> (s: String)
        ensures
            s@ == self.spec_name(),
    {
        match self {
            Delimiter::Parentheses => "Parentheses".to_owned(),
            Delimiter::Brackets => "Brackets".to_owned(),
            Delimiter::CurlyBrackets => "CurlyBrackets".to_owned(),
            Delimiter::AngledBrackets => "AngledBrackets".to_owned(),
        }
    }
}

/// An identifier.
#[derive(Debug)]
pub struct Ident {
    pub value: String,
    pub scope: SrcScope,
}

/// A string literal, without its quotes.
#[derive(Debug)]
pub struct Str {
    pub value: String,
    pub scope: SrcScope,
}

/// An integer literal.
#[derive(Clone, Copy, Debug, PartialEq, Eq, Structural)]
pub struct Int {
    pub value: i32,
    pub scope: SrcScope,
}

/// A single reserved punctuation character.
#[derive(Clone, Copy, Debug, PartialEq, Eq, Structural)]
pub struct Sep {
    pub value: char,
    pub scope: SrcScope,
}

/// A run of operator characters.
#[derive(Debug)]
pub struct Symbol {
    pub value: String,
    pub scope: SrcScope,
}

/// The marker that ends every token sequence.
#[derive(Clone, Copy, Debug, PartialEq, Eq, Structural)]
pub struct End {
    pub scope: SrcScope,
}

/// A matched pair of delimiters and the tokens between them; the inner
/// sequence ends with its own end marker.
#[derive(Debug)]
pub struct Group {
    pub delimiter: Delimiter,
    pub tokens: Vec<Token>,
    pub scope: SrcScope,
}

/// A lexical unit.
#[derive(Debug)]
pub enum Token {
    Ident(Ident),
    Str(Str),
    Int(Int),
    Sep(Sep),
    Symbol(Symbol),
    End(End),
    Group(Group),
}

/// What a token made of text holds: its characters and its span.
pub ghost struct TextV {
    pub value: Seq<char>,
    pub scope: SrcScope,
}

/// What a [`Group`] holds.
pub ghost struct GroupV {
    pub delimiter: Delimiter,
    pub tokens: Seq<TokenV>,
    pub scope: SrcScope,
}

/// What a [`Token`] holds.
pub ghost enum TokenV {
    Ident(TextV),
    Str(TextV),
    Int(Int),
    Sep(Sep),
    Symbol(TextV),
    End(End),
    Group(GroupV),
}

/// What each token of a sequence holds.
pub open spec fn tokens_view(v: Seq<Token>) -> Seq<TokenV>
    decreases v,
{
    Seq::new(
        v.len(),
        |i: int|
            if 0 <= i < v.len() {
                token_view(v[i])
            } else {
                TokenV::End(arbitrary())
            },
    )
}

/// What a token holds.
pub open spec fn token_view(t: Token) -> TokenV
    decreases t,
{
    match t {
        Token::Ident(e) => TokenV::Ident(TextV { value: e.value@, scope: e.scope }),
        Token::Str(e) => TokenV::Str(TextV { value: e.value@, scope: e.scope }),
        Token::Int(e) => TokenV::Int(e),
        Token::Sep(e) => TokenV::Sep(e),
        Token::Symbol(e) => TokenV::Symbol(TextV { value: e.value@, scope: e.scope }),
        Token::End(e) => TokenV::End(e),
        Token::Group(g) => TokenV::Group(
            GroupV { delimiter: g.delimiter, tokens: tokens_view(g.tokens@), scope: g.scope },
        ),
    }
}

impl View for Ident {
    type V = TextV;

    open spec fn view(&self) -> TextV {
        TextV { value: self.value@, scope: self.scope }
    }
}

impl View for Str {
    type V = TextV;

    open spec fn view(&self) -> TextV {
        TextV { value: self.value@, scope: self.scope }
    }
}

impl View for Symbol {
    type V = TextV;

    open spec fn view(&self) -> TextV {
        TextV { value: self.value@, scope: self.scope }
    }
}

impl View for Group {
    type V = GroupV;

    open spec fn view(&self) -> GroupV {
        GroupV { delimiter: self.delimiter, tokens: tokens_view(self.tokens@), scope: self.scope }
    }
}

impl View for Token {
    type V = TokenV;

    open spec fn view(&self) -> TokenV {
        token_view(*self)
    }
}

/// Appending a token appends what it holds.
pub proof fn lemma_tokens_view_push(v: Seq<Token>, t: Token)
    ensures
        tokens_view(v.push(t)) == tokens_view(v).push(t@),
{
    assert(tokens_view(v.push(t)) =~= tokens_view(v).push(t@));
}

/// A token sequence that a cursor can read: not empty, and ended by an end
/// marker.
pub open spec fn stream_ok(toks: Seq<TokenV>) -> bool {
    toks.len() > 0 && toks.last() is End
}

/// The sequence ends with an end marker and holds no other one.
pub open spec fn ends_exactly_once(toks: Seq<TokenV>) -> bool {
    &&& toks.len() > 0
    &&& toks.last() is End
    &&& forall|k: int| 0 <= k < toks.len() - 1 ==> !(#[trigger] toks[k] is End)
}

/// The sequence, and the inner sequence of every group in it at any depth,
/// ends with exactly one end marker.
pub open spec fn tree_ok(toks: Seq<TokenV>) -> bool
    decreases toks,
{
    &&& ends_exactly_once(toks)
    &&& forall|k: int|
        0 <= k < toks.len() && (#[trigger] toks[k]) is Group ==> tree_ok(toks[k]->Group_0.tokens)
}

/// Every token of the sequence, and of every group in it at any depth, has
/// its span in the file `file`.
pub open spec fn all_in_file(toks: Seq<TokenV>, file: FileRef) -> bool
    decreases toks,
{
    forall|k: int|
        0 <= k < toks.len() ==> {
            &&& (#[trigger] toks[k]).scope().file == file
            &&& (toks[k] is Group ==> all_in_file(toks[k]->Group_0.tokens, file))
        }
}

impl TokenV {
    /// The span of the token.
    pub open spec fn scope(self) -> SrcScope {
        match self {
            TokenV::Ident(e) => e.scope,
            TokenV::Str(e) => e.scope,
            TokenV::Int(e) => e.scope,
            TokenV::Sep(e) => e.scope,
            TokenV::Symbol(e) => e.scope,
            TokenV::End(e) => e.scope,
            TokenV::Group(e) => e.scope,
        }
    }

    /// The token is the identifier `value`.
    pub open spec fn is_ident_w(self, value: Seq<char>) -> bool {
        self is Ident && self->Ident_0.value == value
    }

    /// The token is the separator `value`.
    pub open spec fn is_sep_w(self, value: char) -> bool {
        self is Sep && self->Sep_0.value == value
    }

    /// The token is the symbol `value`.
    pub open spec fn is_symbol_w(self, value: Seq<char>) -> bool {
        self is Symbol && self->Symbol_0.value == value
    }

    /// The token is a group between the delimiters `delimiter`.
    pub open spec fn is_group_w(self, delimiter: Delimiter) -> bool {
        self is Group && self->Group_0.delimiter == delimiter
    }
}

/// How diagnostics name a token: its kind, and its content in the standard
/// debug notation. A group is named without its content.
pub open spec fn spec_debug_form(t: TokenV) -> Seq<char> {
    match t {
        TokenV::Ident(e) => "Ident("@ + debug_text(e.value) + ")"@,
        TokenV::Str(e) => "Str("@ + debug_text(e.value) + ")"@,
        TokenV::Int(e) => "Int("@ + signed_decimal(e.value as int) + ")"@,
        TokenV::Sep(e) => "Sep("@ + debug_char_text(e.value) + ")"@,
        TokenV::Symbol(e) => "Symbol("@ + debug_text(e.value) + ")"@,
        TokenV::End(_) => "End()"@,
        TokenV::Group(g) => "Group<"@ + g.delimiter.spec_name() + ">(...)"@,
    }
}

/// The display form of the word `end`: bold and bright.
pub open spec fn spec_end_display() -> Seq<char> {
    Fmt::DecorColor(BOLD, LIGHT_WHITE).spec_code() + "end"@ + Fmt::Reset.spec_code()
}

/// The display form of a token: identifiers, separators and symbols between
/// backticks, strings between double quotes, integers as numerals, and a
/// group as its delimiters around the display forms of its tokens, each
/// followed by a blank.
pub open spec fn spec_display(t: TokenV) -> Seq<char>
    decreases t, 0nat,
{
    match t {
        TokenV::Ident(e) => "`"@ + e.value + "`"@,
        TokenV::Str(e) => "\""@ + e.value + "\""@,
        TokenV::Int(e) => signed_decimal(e.value as int),
        TokenV::Sep(e) => "`"@.push(e.value) + "`"@,
        TokenV::Symbol(e) => "`"@ + e.value + "`"@,
        TokenV::End(_) => spec_end_display(),
        TokenV::Group(g) => spec_display_group(g),
    }
}

/// The display form of a group.
pub open spec fn spec_display_group(g: GroupV) -> Seq<char>
    decreases g, 1nat,
{
    seq![g.delimiter.spec_opening()] + spec_display_tokens(g.tokens, g.tokens.len()) + seq![
        g.delimiter.spec_closing(),
    ]
}

/// The display forms of the first `n` tokens of `toks`, each followed by a
/// blank.
pub open spec fn spec_display_tokens(toks: Seq<TokenV>, n: nat) -> Seq<char>
    decreases toks, n,
{
    if n == 0 || n > toks.len() {
        Seq::empty()
    } else {
        spec_display_tokens(toks, (n - 1) as nat) + spec_display(toks[n - 1]) + seq![' ']
    }
}

/// The diagnostic for a token `t` found where `expected` was asked for.
pub open spec fn spec_invalid(
    t: TokenV,
    expected: Seq<char>,
    context: Option<Seq<char>>,
    help: Option<HelpV>,
) -> CompileErrV {
    CompileErrV::Error(
        DiagnosticV {
            kind: ErrorKind::UnexpectedToken,
            scope: t.scope(),
            cause: "Invalid token"@,
            pointer: "expected "@ + expected + ", found "@ + spec_debug_form(t),
            context,
            help,
        },
    )
}

impl Clone for Ident {
    fn clone(&self) -> (r: Self)
        ensures
            r == *self,
    {
        Ident { value: self.value.clone(), scope: self.scope }
    }
}

impl Clone for Str {
    fn clone(&self) -> (r: Self)
        ensures
            r == *self,
    {
        Str { value: self.value.clone(), scope: self.scope }
    }
}

impl Clone for Symbol {
    fn clone(&self) -> (r: Self)
        ensures
            r == *self,
    {
        Symbol { value: self.value.clone(), scope: self.scope }
    }
}

/// A copy of every token of `v`.
pub fn clone_tokens(v: &Vec<Token>) -> (r: Vec<Token>)
    ensures
        tokens_view(r@) == tokens_view(v@),
    decreases v@,
{
    let mut r: Vec<Token> = Vec::new();
    let mut i: usize = 0;
    while i < v.len()
        invariant
            i <= v.len(),
            r@.len() == i,
            forall|k: int| 0 <= k < i ==> token_view(r@[k]) == token_view(v@[k]),
        decreases v.len() - i,
    {
        let t = clone_token(&v[i]);
        r.push(t);
        i += 1;
    }
    assert(tokens_view(r@) =~= tokens_view(v@));
    r
}

/// A copy of `t`.
pub fn clone_token(t: &Token) -> (r: Token)
    ensures
        r@ == t@,
    decreases *t,
{
    match t {
        Token::Ident(e) => Token::Ident(e.clone()),
        Token::Str(e) => Token::Str(e.clone()),
        Token::Int(e) => Token::Int(*e),
        Token::Sep(e) => Token::Sep(*e),
        Token::Symbol(e) => Token::Symbol(e.clone()),
        Token::End(e) => Token::End(*e),
        Token::Group(g) => Token::Group(
            Group { delimiter: g.delimiter, tokens: clone_tokens(&g.tokens), scope: g.scope },
        ),
    }
}

impl Clone for Group {
    fn clone(&self) -> (r: Self)
        ensures
            r@ == self@,
    {
        Group { delimiter: self.delimiter, tokens: clone_tokens(&self.tokens), scope: self.scope }
    }
}

impl Clone for Token {
    fn clone(&self) -> (r: Self)
        ensures
            r@ == self@,
    {
        clone_token(self)
    }
}

impl Ident {
    /// The identifier between backticks.
    pub fn display(&self) -> (s: String)
        ensures
            s@ == spec_display(TokenV::Ident(self@)),
    {
        let mut s = "`".to_owned();
        s.append(self.value.as_str());
        s.append("`");
        s
    }

    /// This token as a successful outcome.
    pub fn as_ok(&self) -> (r: CompileResult<Self>)
        ensures
            r == CompileResult::Pass(*self),
    {
        CompileResult::Pass(self.clone())
    }
}

impl Str {
    /// The string between double quotes.
    pub fn display(&self) -> (s: String)
        ensures
            s@ == spec_display(TokenV::Str(self@)),
    {
        let mut s = "\"".to_owned();
        s.append(self.value.as_str());
        s.append("\"");
        s
    }

    /// This token as a successful outcome.
    pub fn as_ok(&self) -> (r: CompileResult<Self>)
        ensures
            r == CompileResult::Pass(*self),
    {
        CompileResult::Pass(self.clone())
    }
}

impl Symbol {
    /// The symbol between backticks.
    pub fn display(&self) -> (s: String)
        ensures
            s@ == spec_display(TokenV::Symbol(self@)),
    {
        let mut s = "`".to_owned();
        s.append(self.value.as_str());
        s.append("`");
        s
    }

    /// This token as a successful outcome.
    pub fn as_ok(&self) -> (r: CompileResult<Self>)
        ensures
            r == CompileResult::Pass(*self),
    {
        CompileResult::Pass(self.clone())
    }
}

impl Int {
    /// The numeral of the integer.
    pub fn display(&self) -> (s: String)
        ensures
            s@ == spec_display(TokenV::Int(*self)),
    {
        int_to_string(self.value)
    }

    /// This token as a successful outcome.
    pub fn as_ok(&self) -> (r: CompileResult<Self>)
        ensures
            r == CompileResult::Pass(*self),
    {
        CompileResult::Pass(*self)
    }
}

impl Sep {
    /// The separator between backticks.
    pub fn display(&self) -> (s: String)
        ensures
            s@ == spec_display(TokenV::Sep(*self)),
    {
        let mut s = "`".to_owned();
        s.push(self.value);
        s.append("`");
        s
    }

    /// This token as a successful outcome.
    pub fn as_ok(&self) -> (r: CompileResult<Self>)
        ensures
            r == CompileResult::Pass(*self),
    {
        CompileResult::Pass(*self)
    }
}

impl End {
    /// The word `end`, bold and bright.
    pub fn display(&self) -> (s: String)
        ensures
            s@ == spec_display(TokenV::End(*self)),
    {
        let mut s = Fmt::DecorColor(BOLD, LIGHT_WHITE).code();
        s.append("end");
        s.append(Fmt::Reset.code().as_str());
        s
    }

    /// This token as a successful outcome.
    pub fn as_ok(&self) -> (r: CompileResult<Self>)
        ensures
            r == CompileResult::Pass(*self),
    {
        CompileResult::Pass(*self)
    }
}

impl Group {
    /// The delimiters around the display forms of the inner tokens, each
    /// followed by a blank.
    pub fn display(&self) -> (s: String)
        ensures
            s@ == spec_display(TokenV::Group(self@)),
        decreases *self,
    {
        let mut s = String::new();
        s.push(self.delimiter.opening());
        let ghost toks = tokens_view(self.tokens@);
        let mut i: usize = 0;
        while i < self.tokens.len()
            invariant
                i <= self.tokens.len(),
                toks == tokens_view(self.tokens@),
                s@ == seq![self.delimiter.spec_opening()] + spec_display_tokens(toks, i as nat),
            decreases self.tokens.len() - i,
        {
            let shown = self.tokens[i].display();
            s.append(shown.as_str());
            s.push(' ');
            i += 1;
            assert(s@ =~= seq![self.delimiter.spec_opening()] + spec_display_tokens(toks, i as nat));
        }
        s.push(self.delimiter.closing());
        assert(s@ =~= spec_display_group(self@));
        s
    }

    /// This token as a successful outcome.
    pub fn as_ok(&self) -> (r: CompileResult<Self>)
        ensures
            r is Pass,
            r->Pass_0@ == self@,
    {
        CompileResult::Pass(self.clone())
    }
}

impl Token {
    /// An identifier token.
    pub fn ident(value: String, scope: SrcScope) -> (t: Self)
        ensures
            t == Token::Ident(Ident { value, scope }),
    {
        Token::Ident(Ident { value, scope })
    }

    /// A string literal token.
    pub fn string(value: String, scope: SrcScope) -> (t: Self)
        ensures
            t == Token::Str(Str { value, scope }),
    {
        Token::Str(Str { value, scope })
    }

    /// An integer literal token.
    pub fn integer(value: i32, scope: SrcScope) -> (t: Self)
        ensures
            t == Token::Int(Int { value, scope }),
    {
        Token::Int(Int { value, scope })
    }

    /// A separator token.
    pub fn sep(value: char, scope: SrcScope) -> (t: Self)
        ensures
            t == Token::Sep(Sep { value, scope }),
    {
        Token::Sep(Sep { value, scope })
    }

    /// A symbol token.
    pub fn symbol(value: String, scope: SrcScope) -> (t: Self)
        ensures
            t == Token::Symbol(Symbol { value, scope }),
    {
        Token::Symbol(Symbol { value, scope })
    }

    /// An end marker.
    pub fn end(scope: SrcScope) -> (t: Self)
        ensures
            t == Token::End(End { scope }),
    {
        Token::End(End { scope })
    }

    /// A group token.
    pub fn group(delimiter: Delimiter, tokens: Vec<Token>, scope: SrcScope) -> (t: Self)
        ensures
            t == Token::Group(Group { delimiter, tokens, scope }),
    {
        Token::Group(Group { delimiter, tokens, scope })
    }

    /// The span of the token.
    pub fn scope(&self) -> (s: SrcScope)
        ensures
            s == self@.scope(),
    {
        match self {
            Token::Ident(e) => e.scope,
            Token::Str(e) => e.scope,
            Token::Int(e) => e.scope,
            Token::Sep(e) => e.scope,
            Token::Symbol(e) => e.scope,
            Token::End(e) => e.scope,
            Token::Group(e) => e.scope,
        }
    }

    /// Whether the token is an identifier.
    pub fn is_ident(&self) -> (b: bool)
        ensures
            b == (*self is Ident),
    {
        match self {
            Token::Ident(_) => true,
            _ => false,
        }
    }

    /// Whether the token is a string literal.
    pub fn is_string(&self) -> (b: bool)
        ensures
            b == (*self is Str),
    {
        match self {
            Token::Str(_) => true,
            _ => false,
        }
    }

    /// Whether the token is an integer literal.
    pub fn is_int(&self) -> (b: bool)
        ensures
            b == (*self is Int),
    {
        match self {
            Token::Int(_) => true,
            _ => false,
        }
    }

    /// Whether the token is a separator.
    pub fn is_sep(&self) -> (b: bool)
        ensures
            b == (*self is Sep),
    {
        match self {
            Token::Sep(_) => true,
            _ => false,
        }
    }

    /// Whether the token is a symbol.
    pub fn is_symbol(&self) -> (b: bool)
        ensures
            b == (*self is Symbol),
    {
        match self {
            Token::Symbol(_) => true,
            _ => false,
        }
    }

    /// Whether the token is an end marker.
    pub fn is_end(&self) -> (b: bool)
        ensures
            b == (*self is End),
    {
        match self {
            Token::End(_) => true,
            _ => false,
        }
    }

    /// Whether the token is a group.
    pub fn is_group(&self) -> (b: bool)
        ensures
            b == (*self is Group),
    {
        match self {
            Token::Group(_) => true,
            _ => false,
        }
    }

    /// The token itself, unless it is an end marker.
    pub fn as_non_end(&self) -> (r: Option<&Token>)
        ensures
            *self is End ==> r is None,
            !(*self is End) ==> r == Some(self),
    {
        match self {
            Token::End(_) => None,
            _ => Some(self),
        }
    }

    /// The content of the token, if it is an identifier.
    pub fn as_ident(&self) -> (r: Option<&Ident>)
        ensures
            *self is Ident ==> r is Some && *r->Some_0 == self->Ident_0,
            !(*self is Ident) ==> r is None,
    {
        match self {
            Token::Ident(e) => Some(e),
            _ => None,
        }
    }

    /// The content of the token, if it is a string literal.
    pub fn as_string(&self) -> (r: Option<&Str>)
        ensures
            *self is Str ==> r is Some && *r->Some_0 == self->Str_0,
            !(*self is Str) ==> r is None,
    {
        match self {
            Token::Str(e) => Some(e),
            _ => None,
        }
    }

    /// The content of the token, if it is an integer literal.
    pub fn as_int(&self) -> (r: Option<&Int>)
        ensures
            *self is Int ==> r is Some && *r->Some_0 == self->Int_0,
            !(*self is Int) ==> r is None,
    {
        match self {
            Token::Int(e) => Some(e),
            _ => None,
        }
    }

    /// The content of the token, if it is a separator.
    pub fn as_sep(&self) -> (r: Option<&Sep>)
        ensures
            *self is Sep ==> r is Some && *r->Some_0 == self->Sep_0,
            !(*self is Sep) ==> r is None,
    {
        match self {
            Token::Sep(e) => Some(e),
            _ => None,
        }
    }

    /// The content of the token, if it is a symbol.
    pub fn as_symbol(&self) -> (r: Option<&Symbol>)
        ensures
            *self is Symbol ==> r is Some && *r->Some_0 == self->Symbol_0,
            !(*self is Symbol) ==> r is None,
    {
        match self {
            Token::Symbol(e) => Some(e),
            _ => None,
        }
    }

    /// The content of the token, if it is an end marker.
    pub fn as_end(&self) -> (r: Option<&End>)
        ensures
            *self is End ==> r is Some && *r->Some_0 == self->End_0,
            !(*self is End) ==> r is None,
    {
        match self {
            Token::End(e) => Some(e),
            _ => None,
        }
    }

    /// The content of the token, if it is a group.
    pub fn as_group(&self) -> (r: Option<&Group>)
        ensures
            *self is Group ==> r is Some && *r->Some_0 == self->Group_0,
            !(*self is Group) ==> r is None,
    {
        match self {
            Token::Group(e) => Some(e),
            _ => None,
        }
    }

    /// The content of the token, if it is the symbol `value`.
    pub fn as_symbol_w(&self, value: &str) -> (r: Option<&Symbol>)
        ensures
            self@.is_symbol_w(value@) ==> r is Some && *r->Some_0 == self->Symbol_0,
            !self@.is_symbol_w(value@) ==> r is None,
    {
        match self {
            Token::Symbol(e) => {
                if e.value.as_str().eq(value) {
                    Some(e)
                } else {
                    None
                }
            },
            _ => None,
        }
    }

    /// The content of the token, if it is the separator `value`.
    pub fn as_sep_w(&self, value: char) -> (r: Option<&Sep>)
        ensures
            self@.is_sep_w(value) ==> r is Some && *r->Some_0 == self->Sep_0,
            !self@.is_sep_w(value) ==> r is None,
    {
        match self {
            Token::Sep(e) => {
                if e.value == value {
                    Some(e)
                } else {
                    None
                }
            },
            _ => None,
        }
    }

    /// The content of the token, if it is the identifier `value`.
    pub fn as_ident_w(&self, value: &str) -> (r: Option<&Ident>)
        ensures
            self@.is_ident_w(value@) ==> r is Some && *r->Some_0 == self->Ident_0,
            !self@.is_ident_w(value@) ==> r is None,
    {
        match self {
            Token::Ident(e) => {
                if e.value.as_str().eq(value) {
                    Some(e)
                } else {
                    None
                }
            },
            _ => None,
        }
    }

    /// This token as a successful outcome.
    pub fn as_ok(&self) -> (r: CompileResult<Self>)
        ensures
            r is Pass,
            r->Pass_0@ == self@,
    {
        CompileResult::Pass(self.clone())
    }

    /// How diagnostics name this token.
    pub fn debug_form(&self) -> (s: String)
        ensures
            s@ == spec_debug_form(self@),
    {
        match self {
            Token::Ident(e) => {
                let mut s = "Ident(".to_owned();
                s.append(debug_string(e.value.as_str()).as_str());
                s.append(")");
                s
            },
            Token::Str(e) => {
                let mut s = "Str(".to_owned();
                s.append(debug_string(e.value.as_str()).as_str());
                s.append(")");
                s
            },
            Token::Int(e) => {
                let mut s = "Int(".to_owned();
                s.append(int_to_string(e.value).as_str());
                s.append(")");
                s
            },
            Token::Sep(e) => {
                let mut s = "Sep(".to_owned();
                s.append(debug_char(e.value).as_str());
                s.append(")");
                s
            },
            Token::Symbol(e) => {
                let mut s = "Symbol(".to_owned();
                s.append(debug_string(e.value.as_str()).as_str());
                s.append(")");
                s
            },
            Token::End(_) => "End()".to_owned(),
            Token::Group(g) => {
                let mut s = "Group<".to_owned();
                s.append(g.delimiter.name().as_str());
                s.append(">(...)");
                s
            },
        }
    }

    /// The failure that reports this token where `expected` was asked for.
    pub fn invalid<T>(&self, expected: &str, context: Option<&str>, help: Option<Help>) -> (r:
        CompileResult<T>)
        ensures
            r is Fail,
            r->Fail_0@ == spec_invalid(self@, expected@, opt_str_text(context), opt_help(help)),
    {
        let mut pointer = "expected ".to_owned();
        pointer.append(expected);
        pointer.append(", found ");
        pointer.append(self.debug_form().as_str());
        CompileResult::Fail(
            error(
                self.scope(),
                ErrorInfo {
                    kind: ErrorKind::UnexpectedToken,
                    cause: "Invalid token",
                    pointer: pointer.as_str(),
                    context,
                    help,
                },
            ),
        )
    }

    /// A copy of the token, unless it is an end marker.
    pub fn expect_non_end(&self, context: Option<&str>, help: Option<Help>) -> (r: CompileResult<
        Token,
    >)
        ensures
            !(*self is End) ==> r is Pass && r->Pass_0@ == self@,
            *self is End ==> r is Fail && r->Fail_0@ == spec_invalid(
                self@,
                "non End()"@,
                opt_str_text(context),
                opt_help(help),
            ),
    {
        match self {
            Token::End(_) => self.invalid("non End()", context, help),
            _ => CompileResult::Pass(self.clone()),
        }
    }

    /// The content of the token, which must be an identifier.
    pub fn expect_ident(&self, context: Option<&str>, help: Option<Help>) -> (r: CompileResult<Ident>)
        ensures
            *self is Ident ==> r == CompileResult::Pass(self->Ident_0),
            !(*self is Ident) ==> r is Fail && r->Fail_0@ == spec_invalid(
                self@,
                "Ident()"@,
                opt_str_text(context),
                opt_help(help),
            ),
    {
        match self {
            Token::Ident(e) => CompileResult::Pass(e.clone()),
            _ => self.invalid("Ident()", context, help),
        }
    }

    /// The content of the token, which must be a string literal.
    pub fn expect_string(&self, context: Option<&str>, help: Option<Help>) -> (r: CompileResult<Str>)
        ensures
            *self is Str ==> r == CompileResult::Pass(self->Str_0),
            !(*self is Str) ==> r is Fail && r->Fail_0@ == spec_invalid(
                self@,
                "Str()"@,
                opt_str_text(context),
                opt_help(help),
            ),
    {
        match self {
            Token::Str(e) => CompileResult::Pass(e.clone()),
            _ => self.invalid("Str()", context, help),
        }
    }

    /// The content of the token, which must be an integer literal.
    pub fn expect_int(&self, context: Option<&str>, help: Option<Help>) -> (r: CompileResult<Int>)
        ensures
            *self is Int ==> r == CompileResult::Pass(self->Int_0),
            !(*self is Int) ==> r is Fail && r->Fail_0@ == spec_invalid(
                self@,
                "int"@,
                opt_str_text(context),
                opt_help(help),
            ),
    {
        match self {
            Token::Int(e) => CompileResult::Pass(e.clone()),
            _ => self.invalid("int", context, help),
        }
    }

    /// The content of the token, which must be a separator.
    pub fn expect_sep(&self, context: Option<&str>, help: Option<Help>) -> (r: CompileResult<Sep>)
        ensures
            *self is Sep ==> r == CompileResult::Pass(self->Sep_0),
            !(*self is Sep) ==> r is Fail && r->Fail_0@ == spec_invalid(
                self@,
                "Sep()"@,
                opt_str_text(context),
                opt_help(help),
            ),
    {
        match self {
            Token::Sep(e) => CompileResult::Pass(e.clone()),
            _ => self.invalid("Sep()", context, help),
        }
    }

    /// The content of the token, which must be a symbol.
    pub fn expect_symbol(&self, context: Option<&str>, help: Option<Help>) -> (r: CompileResult<Symbol>)
        ensures
            *self is Symbol ==> r == CompileResult::Pass(self->Symbol_0),
            !(*self is Symbol) ==> r is Fail && r->Fail_0@ == spec_invalid(
                self@,
                "Symbol()"@,
                opt_str_text(context),
                opt_help(help),
            ),
    {
        match self {
            Token::Symbol(e) => CompileResult::Pass(e.clone()),
            _ => self.invalid("Symbol()", context, help),
        }
    }

    /// The content of the token, which must be an end marker.
    pub fn expect_end(&self, context: Option<&str>, help: Option<Help>) -> (r: CompileResult<End>)
        ensures
            *self is End ==> r == CompileResult::Pass(self->End_0),
            !(*self is End) ==> r is Fail && r->Fail_0@ == spec_invalid(
                self@,
                "End()"@,
                opt_str_text(context),
                opt_help(help),
            ),
    {
        match self {
            Token::End(e) => CompileResult::Pass(e.clone()),
            _ => self.invalid("End()", context, help),
        }
    }

    /// The content of the token, which must be a group.
    pub fn expect_group(&self, context: Option<&str>, help: Option<Help>) -> (r: CompileResult<Group>)
        ensures
            *self is Group ==> r is Pass && r->Pass_0@ == self->Group_0@,
            !(*self is Group) ==> r is Fail && r->Fail_0@ == spec_invalid(
                self@,
                "Group"@,
                opt_str_text(context),
                opt_help(help),
            ),
    {
        match self {
            Token::Group(e) => CompileResult::Pass(e.clone()),
            _ => self.invalid("Group", context, help),
        }
    }

    /// The content of the token, which must be the identifier `value`.
    pub fn expect_ident_w(&self, value: &str, context: Option<&str>, help: Option<Help>) -> (r:
        CompileResult<Ident>)
        ensures
            self@.is_ident_w(value@) ==> r == CompileResult::Pass(self->Ident_0),
            !self@.is_ident_w(value@) ==> r is Fail && r->Fail_0@ == spec_invalid(
                self@,
                spec_expected_word(value@),
                opt_str_text(context),
                opt_help(help),
            ),
    {
        match self.as_ident_w(value) {
            Some(e) => CompileResult::Pass(e.clone()),
            None => {
                let mut expected = "Word(\"".to_owned();
                expected.append(value);
                expected.append("\")");
                self.invalid(expected.as_str(), context, help)
            },
        }
    }

    /// The content of the token, which must be the separator `value`.
    pub fn expect_sep_w(&self, value: char, context: Option<&str>, help: Option<Help>) -> (r:
        CompileResult<Sep>)
        ensures
            self@.is_sep_w(value) ==> r == CompileResult::Pass(self->Sep_0),
            !self@.is_sep_w(value) ==> r is Fail && r->Fail_0@ == spec_invalid(
                self@,
                spec_expected_sep(value),
                opt_str_text(context),
                opt_help(help),
            ),
    {
        match self.as_sep_w(value) {
            Some(e) => CompileResult::Pass(*e),
            None => {
                let mut expected = "Sep('".to_owned();
                expected.push(value);
                expected.append("')");
                self.invalid(expected.as_str(), context, help)
            },
        }
    }

    /// The content of the token, which must be a group between the
    /// delimiters `delimiter`.
    pub fn expect_group_w(&self, delimiter: Delimiter, context: Option<&str>, help: Option<Help>) -> (r:
        CompileResult<Group>)
        ensures
            self@.is_group_w(delimiter) ==> r is Pass && r->Pass_0@ == self->Group_0@,
            !self@.is_group_w(delimiter) ==> r is Fail && r->Fail_0@ == spec_invalid(
                self@,
                spec_expected_group(delimiter),
                opt_str_text(context),
                opt_help(help),
            ),
    {
        match self {
            Token::Group(e) => {
                if e.delimiter == delimiter {
                    return CompileResult::Pass(e.clone());
                }
            },
            _ => {},
        }
        let mut expected = "Group<".to_owned();
        expected.append(delimiter.name().as_str());
        expected.append(">");
        self.invalid(expected.as_str(), context, help)
    }

    /// The display form of the token.
    pub fn display(&self) -> (s: String)
        ensures
            s@ == spec_display(self@),
        decreases *self,
    {
        match self {
            Token::Ident(e) => e.display(),
            Token::Str(e) => e.display(),
            Token::Int(e) => e.display(),
            Token::Sep(e) => e.display(),
            Token::Symbol(e) => e.display(),
            Token::End(e) => e.display(),
            Token::Group(e) => e.display(),
        }
    }
}

/// How a diagnostic names the identifier `value` that it asked for.
pub open spec fn spec_expected_word(value: Seq<char>) -> Seq<char> {
    "Word(\""@ + value + "\")"@
}

/// How a diagnostic names the separator `value` that it asked for.
pub open spec fn spec_expected_sep(value: char) -> Seq<char> {
    "Sep('"@.push(value) + "')"@
}

/// How a diagnostic names the group that it asked for.
pub open spec fn spec_expected_group(delimiter: Delimiter) -> Seq<char> {
    "Group<"@ + delimiter.spec_name() + ">"@
}

} // verus!
