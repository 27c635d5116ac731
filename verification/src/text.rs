//! Character classes and small string utilities shared by the whole front end.

use vstd::prelude::*;

verus! {

/// What `char::is_whitespace` answers for `c`: whether the character has the
/// Unicode property `White_Space`.
pub uninterp spec fn char_is_whitespace(c: char) -> bool;

/// What `char::is_alphabetic` answers for `c`: whether the character has the
/// Unicode property `Alphabetic`.
pub uninterp spec fn char_is_alphabetic(c: char) -> bool;

/// What `{:?}` prints for a string slice with the characters `s`: the
/// characters between double quotes, with quotes, backslashes and
/// non-printable characters escaped.
pub uninterp spec fn debug_text(s: Seq<char>) -> Seq<char>;

/// What `{:?}` prints for the character `c`: the character between single
/// quotes, escaped where needed.
pub uninterp spec fn debug_char_text(c: char) -> Seq<char>;

/// Trusted: `char::is_whitespace` answers by the Unicode table of the
/// property `White_Space`. The answer depends on the character alone; it is
/// given a name and not spelled out.
pub assume_specification[ char::is_whitespace ](c: char) -> (r: bool)
    ensures
        r == char_is_whitespace(c),
;

/// Trusted: `char::is_alphabetic` answers by the Unicode table of the
/// property `Alphabetic`. The answer depends on the character alone; it is
/// given a name and not spelled out.
pub assume_specification[ char::is_alphabetic ](c: char) -> (r: bool)
    ensures
        r == char_is_alphabetic(c),
;

/// Trusted: `String::push` appends the character at the end of the string and
/// changes nothing else.
pub assume_specification[ String::push ](s: &mut String, c: char)
    ensures
        final(s)@ == old(s)@.push(c),
;

/// Trusted: `eq` of `PartialEq` for `str` answers `true` exactly when both
/// slices hold the same characters in the same order.
pub assume_specification[ <str as PartialEq>::eq ](a: &str, b: &str) -> (r: bool)
    ensures
        r == (a@ == b@),
;

/// Trusted: calls `format!` with `{:?}` on a string slice, that is the
/// `Debug` implementation of `str`. Nothing is proved of the escaping; the
/// result is known by its name alone.
#[verifier::external_body]
pub(crate) fn debug_string(s: &str) -> (r: String)
    ensures
        r@ == debug_text(s@),
{
    format!("{:?}", s)
}

/// Trusted: calls `format!` with `{:?}` on a character, that is the `Debug`
/// implementation of `char`. Nothing is proved of the escaping; the result
/// is known by its name alone.
#[verifier::external_body]
pub(crate) fn debug_char(c: char) -> (r: String)
    ensures
        r@ == debug_char_text(c),
{
    format!("{:?}", c)
}

/// Whether `c` is one of the ten decimal digits.
pub open spec fn is_digit_char(c: char) -> bool {
    '0' <= c && c <= '9'
}

/// The value of a decimal digit.
pub open spec fn digit_value(c: char) -> int {
    c as int - '0' as int
}

/// The character that writes the digit `d`.
pub open spec fn digit_of(d: int) -> char {
    if d == 0 {
        '0'
    } else if d == 1 {
        '1'
    } else if d == 2 {
        '2'
    } else if d == 3 {
        '3'
    } else if d == 4 {
        '4'
    } else if d == 5 {
        '5'
    } else if d == 6 {
        '6'
    } else if d == 7 {
        '7'
    } else if d == 8 {
        '8'
    } else {
        '9'
    }
}

/// The decimal numeral of `n`, without leading zeros.
pub open spec fn decimal(n: nat) -> Seq<char>
    decreases n,
{
    if n < 10 {
        seq![digit_of(n as int)]
    } else {
        decimal(n / 10).push(digit_of((n % 10) as int))
    }
}

/// The numeral of a signed number: a minus sign before the digits of a
/// negative one.
pub open spec fn signed_decimal(v: int) -> Seq<char> {
    if v < 0 {
        seq!['-'] + decimal((-v) as nat)
    } else {
        decimal(v as nat)
    }
}

/// The number that a run of decimal digits writes; an empty run writes zero.
pub open spec fn decimal_value(s: Seq<char>) -> nat
    decreases s.len(),
{
    if s.len() == 0 {
        0
    } else {
        (decimal_value(s.drop_last()) * 10 + digit_value(s.last())) as nat
    }
}

/// Every character of `s` is a decimal digit.
pub open spec fn all_digits(s: Seq<char>) -> bool {
    forall|i: int| 0 <= i < s.len() ==> is_digit_char(#[trigger] s[i])
}

/// `n` copies of `c`.
pub open spec fn repeated(c: char, n: nat) -> Seq<char> {
    Seq::new(n, |i: int| c)
}

/// Why a run of characters is not a 32-bit integer literal.
#[derive(Clone, Copy, Debug, PartialEq, Eq, Structural)]
pub enum IntError {
    /// The run holds no character at all.
    Empty,
    /// A character is not a decimal digit.
    InvalidDigit,
    /// The number exceeds `i32::MAX`.
    TooLarge,
}

/// What reading the first `n` characters of `s` from left to right gives:
/// the number they write, or the first failure. A character that is no
/// decimal digit is the failure `InvalidDigit`; a digit with which the number
/// passes `i32::MAX` is the failure `TooLarge`.
pub open spec fn parse_prefix(s: Seq<char>, n: nat) -> Result<int, IntError>
    decreases n,
{
    if n == 0 {
        Ok(0)
    } else {
        match parse_prefix(s, (n - 1) as nat) {
            Err(e) => Err(e),
            Ok(v) => {
                if !is_digit_char(s[n - 1]) {
                    Err(IntError::InvalidDigit)
                } else if v * 10 + digit_value(s[n - 1]) > i32::MAX {
                    Err(IntError::TooLarge)
                } else {
                    Ok(v * 10 + digit_value(s[n - 1]))
                }
            },
        }
    }
}

/// What reading `s` as an unsigned decimal literal of 32 signed bits gives.
/// The characters are read from left to right, and the first that is no
/// digit, or with which the number becomes too large, decides the failure.
pub open spec fn spec_parse_digits(s: Seq<char>) -> Result<i32, IntError> {
    if s.len() == 0 {
        Err(IntError::Empty)
    } else {
        match parse_prefix(s, s.len()) {
            Ok(v) => Ok(v as i32),
            Err(e) => Err(e),
        }
    }
}

/// The sentence that explains an [`IntError`].
pub open spec fn spec_int_error_reason(e: IntError) -> Seq<char> {
    match e {
        IntError::Empty => "cannot parse integer from empty string"@,
        IntError::InvalidDigit => "invalid digit found in string"@,
        IntError::TooLarge => "number too large to fit in target type"@,
    }
}

impl IntError {
    /// The sentence that explains this error.
    pub fn reason(&self) -> (r: String)
        ensures
            r@ == spec_int_error_reason(*self),
    {
        match self {
            IntError::Empty => "cannot parse integer from empty string".to_owned(),
            IntError::InvalidDigit => "invalid digit found in string".to_owned(),
            IntError::TooLarge => "number too large to fit in target type".to_owned(),
        }
    }
}

/// A failure on a prefix is the failure of the whole run.
pub proof fn lemma_parse_prefix_fails(s: Seq<char>, m: nat, n: nat)
    requires
        m <= n,
        parse_prefix(s, m) is Err,
    ensures
        parse_prefix(s, n) == parse_prefix(s, m),
    decreases n - m,
{
    if m < n {
        lemma_parse_prefix_fails(s, m, (n - 1) as nat);
    }
}

/// What is read without failure is the number that the digits write: a run
/// is read as `v` exactly when it is not empty, holds digits only, and
/// writes the number `v`, which fits.
pub proof fn lemma_parse_prefix_value(s: Seq<char>, n: nat)
    requires
        n <= s.len(),
    ensures
        parse_prefix(s, n) matches Ok(v) ==> all_digits(s.take(n as int)) && v == decimal_value(
            s.take(n as int),
        ) && 0 <= v <= i32::MAX,
        parse_prefix(s, n) == Err::<int, IntError>(IntError::InvalidDigit) ==> !all_digits(
            s.take(n as int),
        ),
        all_digits(s.take(n as int)) && decimal_value(s.take(n as int)) <= i32::MAX
            ==> parse_prefix(s, n) is Ok,
    decreases n,
{
    if n > 0 {
        lemma_parse_prefix_value(s, (n - 1) as nat);
        let before = s.take(n - 1);
        let now = s.take(n as int);
        assert(now.drop_last() =~= before);
        assert(now.last() == s[n - 1]);
        assert forall|i: int| 0 <= i < before.len() implies before[i] == now[i] by {}
        if all_digits(now) {
            assert forall|i: int| 0 <= i < before.len() implies is_digit_char(
                #[trigger] before[i],
            ) by {
                assert(is_digit_char(now[i]));
            }
            assert(is_digit_char(now[n - 1]));
        }
        match parse_prefix(s, (n - 1) as nat) {
            Ok(v) => {
                if is_digit_char(s[n - 1]) {
                    assert forall|i: int| 0 <= i < now.len() implies is_digit_char(
                        #[trigger] now[i],
                    ) by {
                        if i < n - 1 {
                            assert(is_digit_char(before[i]));
                        }
                    }
                } else {
                    assert(!is_digit_char(now[n - 1]));
                }
            },
            Err(e) => {
                if e == IntError::InvalidDigit {
                    let i = choose|i: int| 0 <= i < before.len() && !is_digit_char(before[i]);
                    assert(!is_digit_char(now[i]));
                }
            },
        }
    }
}

/// The characters of `s`, one slot per character.
pub fn chars_of(s: &str) -> (v: Vec<char>)
    ensures
        v@ == s@,
{
    let mut v: Vec<char> = Vec::new();
    for c in it: s.chars()
        invariant
            v@ == it.seq().take(it.index() as int),
            it.seq() == s@,
    {
        v.push(c);
    }
    v
}

/// The string made of the characters `v[from..to]`.
pub fn string_of(v: &Vec<char>, from: usize, to: usize) -> (s: String)
    requires
        from <= to <= v.len(),
    ensures
        s@ == v@.subrange(from as int, to as int),
{
    let mut s = String::new();
    let mut i: usize = from;
    while i < to
        invariant
            from <= i <= to <= v.len(),
            s@ == v@.subrange(from as int, i as int),
        decreases to - i,
    {
        s.push(v[i]);
        i += 1;
        assert(v@.subrange(from as int, i as int) == v@.subrange(from as int, i - 1).push(
            v@[i - 1],
        ));
    }
    s
}

/// A string of `n` copies of `c`.
pub fn repeat_char(c: char, n: usize) -> (s: String)
    ensures
        s@ == repeated(c, n as nat),
{
    let mut s = String::new();
    let mut i: usize = 0;
    while i < n
        invariant
            i <= n,
            s@ == repeated(c, i as nat),
        decreases n - i,
    {
        s.push(c);
        i += 1;
        assert(repeated(c, i as nat) =~= repeated(c, (i - 1) as nat).push(c));
    }
    s
}

/// The character that writes the digit `d`.
pub fn digit_char(d: u8) -> (c: char)
    requires
        d < 10,
    ensures
        c == digit_of(d as int),
{
    if d == 0 {
        '0'
    } else if d == 1 {
        '1'
    } else if d == 2 {
        '2'
    } else if d == 3 {
        '3'
    } else if d == 4 {
        '4'
    } else if d == 5 {
        '5'
    } else if d == 6 {
        '6'
    } else if d == 7 {
        '7'
    } else if d == 8 {
        '8'
    } else {
        '9'
    }
}

/// Appends the decimal numeral of `n` to `s`.
pub fn push_decimal(s: &mut String, n: u128)
    ensures
        final(s)@ == old(s)@ + decimal(n as nat),
    decreases n,
{
    if n >= 10 {
        push_decimal(s, n / 10);
    }
    let d: u8 = (n % 10) as u8;
    s.push(digit_char(d));
    proof {
        if n >= 10 {
            assert(final(s)@ =~= old(s)@ + decimal(n as nat));
        } else {
            assert(final(s)@ =~= old(s)@ + decimal(n as nat));
        }
    }
}

/// The decimal numeral of `n`.
pub fn nat_to_string(n: usize) -> (s: String)
    ensures
        s@ == decimal(n as nat),
{
    let mut s = String::new();
    push_decimal(&mut s, n as u128);
    assert(s@ =~= decimal(n as nat));
    s
}

/// The numeral of `v`, with a minus sign if it is negative.
pub fn int_to_string(v: i32) -> (s: String)
    ensures
        s@ == signed_decimal(v as int),
{
    let mut s = String::new();
    if v < 0 {
        s.push('-');
        let wide: i64 = v as i64;
        let m: u128 = (-wide) as u128;
        push_decimal(&mut s, m);
    } else {
        push_decimal(&mut s, v as u128);
    }
    assert(s@ =~= signed_decimal(v as int));
    s
}

/// Reads `v[from..to]` as an unsigned decimal literal that must fit 32 signed
/// bits.
pub fn parse_digits(v: &Vec<char>, from: usize, to: usize) -> (r: Result<i32, IntError>)
    requires
        from <= to <= v.len(),
    ensures
        r == spec_parse_digits(v@.subrange(from as int, to as int)),
{
    let ghost s = v@.subrange(from as int, to as int);
    if from == to {
        return Err(IntError::Empty);
    }
    let mut acc: i64 = 0;
    let mut i: usize = from;
    while i < to
        invariant
            from <= i <= to <= v.len(),
            from < to,
            s == v@.subrange(from as int, to as int),
            parse_prefix(s, (i - from) as nat) == Ok::<int, IntError>(acc as int),
            0 <= acc <= i32::MAX,
        decreases to - i,
    {
        let c = v[i];
        assert(c == s[i - from]);
        if !(c >= '0' && c <= '9') {
            proof {
                lemma_parse_prefix_fails(s, (i - from + 1) as nat, s.len());
            }
            return Err(IntError::InvalidDigit);
        }
        let d: i64 = ((c as u8) - 48u8) as i64;
        acc = acc * 10 + d;
        if acc > 2147483647 {
            proof {
                lemma_parse_prefix_fails(s, (i - from + 1) as nat, s.len());
            }
            return Err(IntError::TooLarge);
        }
        i += 1;
    }
    Ok(acc as i32)
}

} // verus!
