//! The tokenizer: from the characters of a file to a token sequence in which
//! every matched pair of delimiters is one group token.

use vstd::prelude::*;
use crate::errors::{error, CompileErrV, CompileResult, DiagnosticV, ErrorInfo, ErrorKind};
use crate::files::{FileError, FileManager, FileRef};
use crate::span::SrcScope;
use crate::text::{
    char_is_alphabetic,
    char_is_whitespace,
    chars_of,
    is_digit_char,
    parse_digits,
    spec_int_error_reason,
    spec_parse_digits,
    string_of,
};
use crate::tiling::{lemma_lex_run_fails_lexically, lemma_lex_run_tiles, lexical_failure, tiles};
use crate::tokens::{
    all_in_file,
    lemma_tokens_view_push,
    tokens_view,
    tree_ok,
    Delimiter,
    End,
    GroupV,
    Int,
    Sep,
    TextV,
    Token,
    TokenV,
};

verus! {

/// A separator: one of `, : @ ; |`.
pub open spec fn spec_is_sep(c: char) -> bool {
    c == ',' || c == ':' || c == '@' || c == ';' || c == '|'
}

/// An operator character: one of `+ - * / % = . > <`.
pub open spec fn spec_is_symbol(c: char) -> bool {
    c == '+' || c == '-' || c == '*' || c == '/' || c == '%' || c == '=' || c == '.' || c == '>'
        || c == '<'
}

/// A delimiter character, opening or closing.
pub open spec fn spec_is_delimiter(c: char) -> bool {
    c == '(' || c == ')' || c == '{' || c == '}' || c == '[' || c == ']' || c == '<' || c == '>'
}

/// The pair that `c` opens, if it opens one.
pub open spec fn spec_delimiter(c: char) -> Option<Delimiter> {
    if c == '(' {
        Some(Delimiter::Parentheses)
    } else if c == '{' {
        Some(Delimiter::CurlyBrackets)
    } else if c == '[' {
        Some(Delimiter::Brackets)
    } else if c == '<' {
        Some(Delimiter::AngledBrackets)
    } else {
        None
    }
}

/// A character that ends an integer literal: white space, a separator, an
/// operator character or a delimiter.
pub open spec fn spec_is_ident_sep(c: char) -> bool {
    char_is_whitespace(c) || spec_is_sep(c) || spec_is_symbol(c) || spec_is_delimiter(c)
}

/// A character that may start an integer literal: a decimal digit.
pub open spec fn spec_starts_num(c: char) -> bool {
    is_digit_char(c)
}

/// A decimal digit or an underscore.
pub open spec fn spec_in_num(c: char) -> bool {
    is_digit_char(c) || c == '_'
}

/// A character that may start an identifier: alphabetic, `_` or `$`.
pub open spec fn spec_starts_ident(c: char) -> bool {
    char_is_alphabetic(c) || c == '_' || c == '$'
}

/// A character that may continue an identifier: alphabetic, `_` or a decimal
/// digit.
pub open spec fn spec_in_ident(c: char) -> bool {
    char_is_alphabetic(c) || c == '_' || is_digit_char(c)
}

/// Whether `c` ends an integer literal.
#[verifier::when_used_as_spec(spec_is_ident_sep)]
pub fn is_ident_sep(c: char) -> (b: bool)
    ensures
        b == spec_is_ident_sep(c),
{
    c.is_whitespace() || is_sep(c) || is_symbol(c) || is_delimiter(c)
}

/// Whether `c` is a separator.
#[verifier::when_used_as_spec(spec_is_sep)]
pub fn is_sep(c: char) -> (b: bool)
    ensures
        b == spec_is_sep(c),
{
    c == ',' || c == ':' || c == '@' || c == ';' || c == '|'
}

/// Whether `c` is an operator character.
#[verifier::when_used_as_spec(spec_is_symbol)]
pub fn is_symbol(c: char) -> (b: bool)
    ensures
        b == spec_is_symbol(c),
{
    c == '+' || c == '-' || c == '*' || c == '/' || c == '%' || c == '=' || c == '.' || c == '>'
        || c == '<'
}

/// Whether `c` opens or closes a pair of delimiters.
#[verifier::when_used_as_spec(spec_is_delimiter)]
pub fn is_delimiter(c: char) -> (b: bool)
    ensures
        b == spec_is_delimiter(c),
{
    c == '(' || c == ')' || c == '{' || c == '}' || c == '[' || c == ']' || c == '<' || c == '>'
}

/// The pair of delimiters that `c` opens.
#[verifier::when_used_as_spec(spec_delimiter)]
pub fn delimiter(c: char) -> (d: Option<Delimiter>)
    ensures
        d == spec_delimiter(c),
{
    if c == '(' {
        Some(Delimiter::Parentheses)
    } else if c == '{' {
        Some(Delimiter::CurlyBrackets)
    } else if c == '[' {
        Some(Delimiter::Brackets)
    } else if c == '<' {
        Some(Delimiter::AngledBrackets)
    } else {
        None
    }
}

/// Whether `c` may start an integer literal.
#[verifier::when_used_as_spec(spec_starts_num)]
pub fn starts_num(c: char) -> (b: bool)
    ensures
        b == spec_starts_num(c),
{
    c >= '0' && c <= '9'
}

/// Whether `c` is a decimal digit or an underscore.
#[verifier::when_used_as_spec(spec_in_num)]
pub fn in_num(c: char) -> (b: bool)
    ensures
        b == spec_in_num(c),
{
    (c >= '0' && c <= '9') || c == '_'
}

/// Whether `c` may start an identifier.
#[verifier::when_used_as_spec(spec_starts_ident)]
pub fn starts_ident(c: char) -> (b: bool)
    ensures
        b == spec_starts_ident(c),
{
    c.is_alphabetic() || c == '_' || c == '$'
}

/// Whether `c` may continue an identifier.
#[verifier::when_used_as_spec(spec_in_ident)]
pub fn in_ident(c: char) -> (b: bool)
    ensures
        b == spec_in_ident(c),
{
    c.is_alphabetic() || c == '_' || (c >= '0' && c <= '9')
}

/// The classes of characters that a token is a maximal run of.
#[derive(Clone, Copy, Debug, PartialEq, Eq, Structural)]
pub enum CharClass {
    /// Operator characters.
    Symbol,
    /// Characters that continue an identifier.
    Ident,
    /// Characters that do not end an integer literal.
    Number,
    /// Characters other than the double quote.
    Quoted,
}

impl CharClass {
    /// Whether `c` belongs to the class.
    pub open spec fn spec_has(self, c: char) -> bool {
        match self {
            CharClass::Symbol => spec_is_symbol(c),
            CharClass::Ident => spec_in_ident(c),
            CharClass::Number => !spec_is_ident_sep(c),
            CharClass::Quoted => c != '"',
        }
    }

    /// Whether `c` belongs to the class.
    #[verifier::when_used_as_spec(spec_has)]
    pub fn has(self, c: char) -> (b: bool)
        ensures
            b == self.spec_has(c),
    {
        match self {
            CharClass::Symbol => is_symbol(c),
            CharClass::Ident => in_ident(c),
            CharClass::Number => !is_ident_sep(c),
            CharClass::Quoted => c != '"',
        }
    }
}

/// Where the maximal run of characters of class `class` that begins at
/// `from` ends: the first position at or behind `from` that holds no
/// character of the class, or the end of the text.
pub open spec fn run_end(s: Seq<char>, from: int, class: CharClass) -> int
    decreases s.len() - from,
{
    if 0 <= from < s.len() && class.spec_has(s[from]) {
        run_end(s, from + 1, class)
    } else {
        from
    }
}

/// The run that begins at `from` holds characters of the class only, and
/// cannot be extended.
pub proof fn lemma_run_end(s: Seq<char>, from: int, class: CharClass)
    requires
        0 <= from <= s.len(),
    ensures
        from <= run_end(s, from, class) <= s.len(),
        forall|k: int| from <= k < run_end(s, from, class) ==> class.spec_has(#[trigger] s[k]),
        run_end(s, from, class) < s.len() ==> !class.spec_has(s[run_end(s, from, class)]),
    decreases s.len() - from,
{
    if from < s.len() && class.spec_has(s[from]) {
        lemma_run_end(s, from + 1, class);
    }
}

/// Where the maximal run of class `class` that begins at `from` ends.
pub fn scan(chars: &Vec<char>, from: usize, class: CharClass) -> (e: usize)
    requires
        from <= chars.len(),
    ensures
        e == run_end(chars@, from as int, class),
        from <= e <= chars.len(),
{
    let mut e: usize = from;
    while e < chars.len() && class.has(chars[e])
        invariant
            from <= e <= chars.len(),
            run_end(chars@, from as int, class) == run_end(chars@, e as int, class),
        decreases chars.len() - e,
    {
        e += 1;
    }
    e
}

/// One step of the tokenizer.
pub ghost enum LexStep {
    /// A token, and the position behind it.
    Token(TokenV, int),
    /// White space was skipped; the position behind it.
    Skip(int),
    /// The input is not lexically valid.
    Fail(DiagnosticV),
}

/// The tokens up to the end of a group or of the text.
pub ghost enum LexRun {
    /// The tokens, end marker included, and the position behind the closing
    /// delimiter.
    Closed(Seq<TokenV>, int),
    /// The text ended before the closing delimiter.
    Unclosed,
    /// The input is not lexically valid.
    Fail(DiagnosticV),
}

/// The span `start..end` of `file`.
pub open spec fn scope_of(file: FileRef, start: int, end: int) -> SrcScope {
    SrcScope { start: start as usize, end: end as usize, file }
}

/// A lexical failure: no context, no suggested fix.
pub open spec fn lex_failure(
    kind: ErrorKind,
    scope: SrcScope,
    cause: Seq<char>,
    pointer: Seq<char>,
) -> DiagnosticV {
    DiagnosticV { kind, scope, cause, pointer, context: None, help: None }
}

/// A run of tokens with `t` put before it.
pub open spec fn prepend(ts: Seq<TokenV>, run: LexRun) -> LexRun {
    match run {
        LexRun::Closed(rest, n) => LexRun::Closed(ts + rest, n),
        other => other,
    }
}

/// What the tokenizer makes of the character at `i`: by the first character,
/// a string literal up to the next double quote, a separator, a maximal run
/// of operator characters, an integer literal up to the next character that
/// ends one, an identifier, skipped white space, or a group up to the
/// matching closing delimiter; any other character is illegal.
pub open spec fn lex_step(s: Seq<char>, file: FileRef, i: int) -> LexStep
    recommends
        0 <= i < s.len(),
    decreases s.len() - i, 0nat,
{
    if i < 0 || i >= s.len() {
        LexStep::Skip(i + 1)
    } else if s[i] == '"' {
        let q = run_end(s, i + 1, CharClass::Quoted);
        if q >= s.len() {
            LexStep::Fail(
                lex_failure(
                    ErrorKind::UnterminatedString,
                    scope_of(file, i, s.len() as int),
                    "missing closing quote"@,
                    "opening quote is missing a matching closing quote"@,
                ),
            )
        } else {
            LexStep::Token(
                TokenV::Str(TextV { value: s.subrange(i + 1, q), scope: scope_of(file, i, q + 1) }),
                q + 1,
            )
        }
    } else if spec_is_sep(s[i]) {
        LexStep::Token(TokenV::Sep(Sep { value: s[i], scope: scope_of(file, i, i + 1) }), i + 1)
    } else if spec_is_symbol(s[i]) {
        let e = run_end(s, i + 1, CharClass::Symbol);
        LexStep::Token(
            TokenV::Symbol(TextV { value: s.subrange(i, e), scope: scope_of(file, i, e) }),
            e,
        )
    } else if spec_starts_num(s[i]) {
        let e = run_end(s, i + 1, CharClass::Number);
        match spec_parse_digits(s.subrange(i, e)) {
            Ok(value) => LexStep::Token(
                TokenV::Int(Int { value, scope: scope_of(file, i, e) }),
                e,
            ),
            Err(reason) => LexStep::Fail(
                lex_failure(
                    ErrorKind::MalformedInteger,
                    scope_of(file, i, e),
                    "invalid integer literal"@,
                    "failed to parse integer, reason: "@ + spec_int_error_reason(reason),
                ),
            ),
        }
    } else if spec_starts_ident(s[i]) {
        let e = run_end(s, i + 1, CharClass::Ident);
        LexStep::Token(
            TokenV::Ident(TextV { value: s.subrange(i, e), scope: scope_of(file, i, e) }),
            e,
        )
    } else if char_is_whitespace(s[i]) {
        LexStep::Skip(i + 1)
    } else if spec_delimiter(s[i]) is Some {
        let d = spec_delimiter(s[i])->Some_0;
        match lex_run(s, file, i + 1, Some(d.spec_closing())) {
            LexRun::Closed(tokens, n) => LexStep::Token(
                TokenV::Group(GroupV { delimiter: d, tokens, scope: scope_of(file, i, n) }),
                n,
            ),
            LexRun::Unclosed => LexStep::Fail(
                lex_failure(
                    ErrorKind::UnmatchedDelimiter,
                    scope_of(file, i, i + 1),
                    "missing closing delimiter"@,
                    "opening delimiter doesn't have a matching closing delimiter"@,
                ),
            ),
            LexRun::Fail(d) => LexStep::Fail(d),
        }
    } else {
        LexStep::Fail(
            lex_failure(
                ErrorKind::IllegalCharacter,
                scope_of(file, i, i + 1),
                "illegal character"@,
                "this character does not start a token"@,
            ),
        )
    }
}

/// The tokens from `j` on: up to the closing delimiter `until`, where one is
/// given, and else up to the end of the text. The sequence ends with an end
/// marker, which covers the closing delimiter, or nothing at the end of the
/// text.
pub open spec fn lex_run(s: Seq<char>, file: FileRef, j: int, until: Option<char>) -> LexRun
    decreases s.len() - j, 1nat,
{
    if j < 0 {
        LexRun::Unclosed
    } else if j >= s.len() {
        match until {
            None => LexRun::Closed(
                seq![TokenV::End(End { scope: scope_of(file, s.len() as int, s.len() as int) })],
                s.len() as int,
            ),
            Some(_) => LexRun::Unclosed,
        }
    } else if until == Some(s[j]) {
        LexRun::Closed(seq![TokenV::End(End { scope: scope_of(file, j, j + 1) })], j + 1)
    } else {
        match lex_step(s, file, j) {
            LexStep::Token(t, n) => if j < n <= s.len() {
                prepend(seq![t], lex_run(s, file, n, until))
            } else {
                LexRun::Unclosed
            },
            LexStep::Skip(n) => if j < n <= s.len() {
                lex_run(s, file, n, until)
            } else {
                LexRun::Unclosed
            },
            LexStep::Fail(d) => LexRun::Fail(d),
        }
    }
}

/// The token sequence of a whole text, or the first lexical failure.
pub open spec fn spec_lex(s: Seq<char>, file: FileRef) -> LexRun {
    lex_run(s, file, 0, None)
}

/// The tokenizer of one file: its characters and the position of the next
/// character to read.
#[derive(Debug)]
pub struct Lexer {
    pub file: FileRef,
    pub chars: Vec<char>,
    pub index: usize,
}

impl Lexer {
    /// A tokenizer at the start of the file `file`.
    pub fn new(mgr: &FileManager, file: FileRef) -> (r: Result<Lexer, FileError>)
        ensures
            !mgr.contains(file) ==> r is Err && r->Err_0 == FileError::OutOfRange,
            mgr.contains(file) ==> r is Ok && r->Ok_0.file == file && r->Ok_0.chars@ == mgr.text(
                file,
            ) && r->Ok_0.index == 0,
    {
        match file.source(mgr) {
            Ok(text) => Ok(Lexer { file, chars: chars_of(text.as_str()), index: 0 }),
            Err(e) => Err(e),
        }
    }

    /// Reads the rest of the file into tokens. The sequence ends with an end
    /// marker of length zero at the end of the text; it is well nested, and
    /// its tokens tile the text that was read. A failure is of a lexical kind
    /// and anchored within the text.
    pub fn lex(&mut self) -> (r: CompileResult<Vec<Token>>)
        requires
            old(self).index <= old(self).chars.len(),
        ensures
            final(self).chars == old(self).chars,
            final(self).file == old(self).file,
            final(self).index <= final(self).chars.len(),
            match lex_run(old(self).chars@, old(self).file, old(self).index as int, None) {
                LexRun::Closed(tokens, n) => r is Pass && tokens_view(r->Pass_0@) == tokens
                    && final(self).index == n && n == old(self).chars.len() && tree_ok(tokens)
                    && all_in_file(tokens, old(self).file) && tiles(
                    old(self).chars@,
                    tokens,
                    0,
                    old(self).index as int,
                    n,
                ),
                LexRun::Unclosed => false,
                LexRun::Fail(d) => r is Fail && r->Fail_0@ == CompileErrV::Error(d)
                    && lexical_failure(old(self).chars@, old(self).file, d),
            },
    {
        let mut tokens: Vec<Token> = Vec::new();
        let num_chars = self.chars.len();
        let ghost s = self.chars@;
        let ghost file = self.file;
        let ghost start = self.index as int;
        proof {
            lemma_lex_run_tiles(s, file, start, None);
            lemma_lex_run_fails_lexically(s, file, start, None);
        }
        while self.index < num_chars
            invariant
                self.chars == old(self).chars,
                self.file == old(self).file,
                s == self.chars@,
                file == self.file,
                num_chars == self.chars.len(),
                start == old(self).index,
                start <= self.index <= num_chars,
                lex_run(s, file, start, None) matches LexRun::Fail(d) ==> lexical_failure(s, file, d),
                lex_run(s, file, start, None) == prepend(
                    tokens_view(tokens@),
                    lex_run(s, file, self.index as int, None),
                ),
            decreases num_chars - self.index,
        {
            let c = self.chars[self.index];
            let ghost j = self.index as int;
            let ghost before = tokens@;
            match self.next(c) {
                CompileResult::Pass(Some(token)) => {
                    tokens.push(token);
                    proof {
                        lemma_tokens_view_push(before, token);
                        lemma_prepend_push(
                            tokens_view(before),
                            token@,
                            lex_run(s, file, self.index as int, None),
                        );
                    }
                },
                CompileResult::Pass(None) => {},
                CompileResult::Fail(e) => {
                    return CompileResult::Fail(e);
                },
            }
        }
        let end = Token::end(self.scope(num_chars, num_chars));
        proof {
            lemma_tokens_view_push(tokens@, end);
        }
        tokens.push(end);
        CompileResult::Pass(tokens)
    }

    /// Reads the token that begins with the character `c` at the current
    /// position, or skips `c` if it is white space.
    pub fn next(&mut self, c: char) -> (r: CompileResult<Option<Token>>)
        requires
            old(self).index < old(self).chars.len(),
            c == old(self).chars@[old(self).index as int],
        ensures
            final(self).chars == old(self).chars,
            final(self).file == old(self).file,
            final(self).index <= final(self).chars.len(),
            match lex_step(old(self).chars@, old(self).file, old(self).index as int) {
                LexStep::Token(t, n) => r is Pass && r->Pass_0 is Some && r->Pass_0->Some_0@ == t
                    && final(self).index == n && n > old(self).index,
                LexStep::Skip(n) => r is Pass && r->Pass_0 is None && final(self).index == n && n
                    > old(self).index,
                LexStep::Fail(d) => r is Fail && r->Fail_0@ == CompileErrV::Error(d),
            },
        decreases old(self).chars.len() - old(self).index, 1nat,
    {
        let num_chars = self.chars.len();
        let start = self.index;
        if c == '"' {
            let q = scan(&self.chars, start + 1, CharClass::Quoted);
            if q >= num_chars {
                self.index = num_chars;
                let scope = self.scope(start, num_chars);
                return CompileResult::Fail(
                    error(
                        scope,
                        ErrorInfo {
                            kind: ErrorKind::UnterminatedString,
                            cause: "missing closing quote",
                            pointer: "opening quote is missing a matching closing quote",
                            context: None,
                            help: None,
                        },
                    ),
                );
            }
            self.index = q + 1;
            let scope = self.scope(start, q + 1);
            let value = string_of(&self.chars, start + 1, q);
            return CompileResult::Pass(Some(Token::string(value, scope)));
        }
        if is_sep(c) {
            self.index += 1;
            let token = Token::sep(c, self.len_scope(1));
            return CompileResult::Pass(Some(token));
        }
        if is_symbol(c) {
            let e = scan(&self.chars, start + 1, CharClass::Symbol);
            self.index = e;
            let value = string_of(&self.chars, start, e);
            let scope = self.len_scope(e - start);
            return CompileResult::Pass(Some(Token::symbol(value, scope)));
        }
        if starts_num(c) {
            let e = scan(&self.chars, start + 1, CharClass::Number);
            self.index = e;
            let scope = self.len_scope(e - start);
            return match parse_digits(&self.chars, start, e) {
                Ok(value) => CompileResult::Pass(Some(Token::integer(value, scope))),
                Err(reason) => {
                    let mut pointer = "failed to parse integer, reason: ".to_owned();
                    pointer.append(reason.reason().as_str());
                    CompileResult::Fail(
                        error(
                            scope,
                            ErrorInfo {
                                kind: ErrorKind::MalformedInteger,
                                cause: "invalid integer literal",
                                pointer: pointer.as_str(),
                                context: None,
                                help: None,
                            },
                        ),
                    )
                },
            };
        }
        if starts_ident(c) {
            let e = scan(&self.chars, start + 1, CharClass::Ident);
            self.index = e;
            let value = string_of(&self.chars, start, e);
            let scope = self.len_scope(e - start);
            return CompileResult::Pass(Some(Token::ident(value, scope)));
        }
        if c.is_whitespace() {
            self.index += 1;
            return CompileResult::Pass(None);
        }
        if let Some(delimiter) = delimiter(c) {
            return match self.get_group_tokens(delimiter.closing()) {
                CompileResult::Pass(Some(tokens)) => {
                    let scope = self.scope(start, self.index);
                    CompileResult::Pass(Some(Token::group(delimiter, tokens, scope)))
                },
                CompileResult::Pass(None) => {
                    let scope = self.scope(start, start + 1);
                    CompileResult::Fail(
                        error(
                            scope,
                            ErrorInfo {
                                kind: ErrorKind::UnmatchedDelimiter,
                                cause: "missing closing delimiter",
                                pointer: "opening delimiter doesn't have a matching closing delimiter",
                                context: None,
                                help: None,
                            },
                        ),
                    )
                },
                CompileResult::Fail(e) => CompileResult::Fail(e),
            };
        }
        self.index += 1;
        CompileResult::Fail(
            error(
                self.len_scope(1),
                ErrorInfo {
                    kind: ErrorKind::IllegalCharacter,
                    cause: "illegal character",
                    pointer: "this character does not start a token",
                    context: None,
                    help: None,
                },
            ),
        )
    }

    /// Reads the tokens of a group whose opening delimiter stands at the
    /// current position, up to the closing delimiter `until`. The result is
    /// `None` where the text ends before `until` is found.
    pub fn get_group_tokens(&mut self, until: char) -> (r: CompileResult<Option<Vec<Token>>>)
        requires
            old(self).index < old(self).chars.len(),
        ensures
            final(self).chars == old(self).chars,
            final(self).file == old(self).file,
            final(self).index <= final(self).chars.len(),
            match lex_run(old(self).chars@, old(self).file, old(self).index + 1, Some(until)) {
                LexRun::Closed(tokens, n) => r is Pass && r->Pass_0 is Some && tokens_view(
                    r->Pass_0->Some_0@,
                ) == tokens && final(self).index == n && n > old(self).index + 1,
                LexRun::Unclosed => r is Pass && r->Pass_0 is None,
                LexRun::Fail(d) => r is Fail && r->Fail_0@ == CompileErrV::Error(d),
            },
        decreases old(self).chars.len() - old(self).index, 0nat,
    {
        let mut tokens: Vec<Token> = Vec::new();
        let num_chars = self.chars.len();
        self.index += 1;
        let ghost s = self.chars@;
        let ghost file = self.file;
        let ghost start = self.index as int;
        while self.index < num_chars
            invariant
                self.chars == old(self).chars,
                self.file == old(self).file,
                s == self.chars@,
                file == self.file,
                num_chars == self.chars.len(),
                start == old(self).index + 1,
                start <= self.index <= num_chars,
                lex_run(s, file, start, Some(until)) == prepend(
                    tokens_view(tokens@),
                    lex_run(s, file, self.index as int, Some(until)),
                ),
            decreases num_chars - self.index,
        {
            let c = self.chars[self.index];
            let ghost before = tokens@;
            if c == until {
                self.index += 1;
                let end = Token::end(self.len_scope(1));
                proof {
                    lemma_tokens_view_push(before, end);
                }
                tokens.push(end);
                return CompileResult::Pass(Some(tokens));
            }
            match self.next(c) {
                CompileResult::Pass(Some(token)) => {
                    tokens.push(token);
                    proof {
                        lemma_tokens_view_push(before, token);
                        lemma_prepend_push(
                            tokens_view(before),
                            token@,
                            lex_run(s, file, self.index as int, Some(until)),
                        );
                    }
                },
                CompileResult::Pass(None) => {},
                CompileResult::Fail(e) => {
                    return CompileResult::Fail(e);
                },
            }
        }
        CompileResult::Pass(None)
    }

    /// The span of the last `len` characters read.
    pub fn len_scope(&self, len: usize) -> (scope: SrcScope)
        requires
            len <= self.index,
        ensures
            scope == scope_of(self.file, self.index - len, self.index as int),
    {
        SrcScope { file: self.file, start: self.index - len, end: self.index }
    }

    /// The span `start..end` of the file being read.
    pub fn scope(&self, start: usize, end: usize) -> (scope: SrcScope)
        ensures
            scope == scope_of(self.file, start as int, end as int),
    {
        SrcScope { file: self.file, start, end }
    }
}

/// Putting `ts`, then `t`, before a run is putting `ts` with `t` appended
/// before it.
pub proof fn lemma_prepend_push(ts: Seq<TokenV>, t: TokenV, run: LexRun)
    ensures
        prepend(ts, prepend(seq![t], run)) == prepend(ts.push(t), run),
{
    match run {
        LexRun::Closed(rest, n) => {
            assert(ts + (seq![t] + rest) =~= ts.push(t) + rest);
        },
        _ => {},
    }
}

} // verus!
