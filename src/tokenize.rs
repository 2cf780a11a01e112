use vstd::prelude::*;
use vstd::string::*;
use crate::operator::{OperatorType, from_str, spec_from_str};
use crate::value::{BasicType, NumericType, FloatOps};

verus! {

/// One lexical unit of the source text.
#[derive(Debug, PartialEq, Eq)]
pub enum Token {
    LParen,
    RParen,
    Operator(OperatorType),
    Literal(BasicType),
    /// A name: a variable, or part of an enumeration.
    Symbol(String),
    Invalid,
    /// A run of blank space; `next` and `peek` never hand it out.
    Whitespace,
}

pub open spec fn is_space(c: char) -> bool {
    c == ' ' || c == '\t' || c == '\n' || c == '\r'
}

pub open spec fn is_delimiter(c: char) -> bool {
    is_space(c) || c == '(' || c == ')'
}

pub open spec fn is_digit(c: char) -> bool {
    '0' <= c && c <= '9'
}

pub open spec fn is_suffix(c: char) -> bool {
    c == 'i' || c == 'u' || c == 'f'
}

pub open spec fn is_number_char(c: char) -> bool {
    is_digit(c) || c == '-' || c == '.' || is_suffix(c)
}

pub open spec fn is_symbol_start(c: char) -> bool {
    ('a' <= c && c <= 'z') || ('A' <= c && c <= 'Z') || c == '_' || c == '*'
}

/// The end of the word that starts at `i`: the first delimiter at or after `i`.
pub open spec fn word_end(s: Seq<char>, i: int) -> int
    decreases s.len() - i,
{
    if i >= s.len() || i < 0 {
        i
    } else if is_delimiter(s[i]) {
        i
    } else {
        word_end(s, i + 1)
    }
}

/// The word that starts at `i`: a run of characters that are neither blank nor parentheses.
pub open spec fn word_at(s: Seq<char>, i: int) -> Seq<char> {
    s.subrange(i, word_end(s, i))
}

/// The position of the quote that closes a string whose text starts at `k`;
/// a backslash makes the character after it part of the text.
pub open spec fn string_end(s: Seq<char>, k: int) -> Option<int>
    decreases s.len() + 2 - k,
{
    if k >= s.len() || k < 0 {
        None
    } else if s[k] == '"' {
        Some(k)
    } else if s[k] == '\\' {
        string_end(s, k + 2)
    } else {
        string_end(s, k + 1)
    }
}

/// The character that a `#\` literal denotes.
pub open spec fn char_literal(w: Seq<char>) -> Option<char> {
    if w.len() < 2 || w[0] != '#' || w[1] != '\\' {
        None
    } else if w.len() == 2 {
        Some(' ')
    } else if w.len() == 3 {
        Some(w[2])
    } else if w == "#\\space"@ {
        Some(' ')
    } else if w == "#\\newline"@ {
        Some('\n')
    } else {
        None
    }
}

pub open spec fn count_of(s: Seq<char>, c: char) -> nat
    decreases s.len(),
{
    if s.len() == 0 {
        0
    } else {
        count_of(s.drop_last(), c) + if s.last() == c { 1nat } else { 0nat }
    }
}

pub open spec fn all_digits(d: Seq<char>) -> bool {
    d.len() > 0 && forall|k: int| 0 <= k < d.len() ==> is_digit(#[trigger] d[k])
}

pub open spec fn decimal_value(d: Seq<char>) -> int
    decreases d.len(),
{
    if d.len() == 0 {
        0
    } else {
        decimal_value(d.drop_last()) * 10 + (d.last() as int - '0' as int)
    }
}

/// The value of an integer literal: an optional `-` and digits, within the signed 64-bit range.
pub open spec fn signed_value(p: Seq<char>) -> Option<int> {
    if p.len() > 0 && p[0] == '-' && all_digits(p.drop_first()) {
        if decimal_value(p.drop_first()) <= 0x8000_0000_0000_0000 {
            Some(-decimal_value(p.drop_first()))
        } else {
            None
        }
    } else if all_digits(p) && decimal_value(p) <= 0x7fff_ffff_ffff_ffff {
        Some(decimal_value(p))
    } else {
        None
    }
}

/// The value of an unsigned literal: digits only. A number is held as a signed
/// 64-bit integer, so the value must fit there too.
pub open spec fn unsigned_value(p: Seq<char>) -> Option<int> {
    if all_digits(p) && decimal_value(p) <= 0x7fff_ffff_ffff_ffff {
        Some(decimal_value(p))
    } else {
        None
    }
}

/// A decimal float: an optional leading `-`, then digits with at most one `.`,
/// and at least one digit.
pub open spec fn is_float_text(p: Seq<char>) -> bool {
    let body = if p.len() > 0 && p[0] == '-' { p.drop_first() } else { p };
    &&& digits_and_dots(body)
    &&& count_of(body, '.') <= 1
    &&& has_digit(body)
}

pub open spec fn digits_and_dots(s: Seq<char>) -> bool {
    forall|k: int| 0 <= k < s.len() ==> is_digit(#[trigger] s[k]) || s[k] == '.'
}

pub open spec fn has_digit(s: Seq<char>) -> bool {
    exists|k: int| 0 <= k < s.len() && is_digit(#[trigger] s[k])
}

/// What a word that reads as a number denotes.
pub enum NumberClass {
    Integer(int),
    Floating,
    Invalid,
}

pub open spec fn integer_class(v: Option<int>) -> NumberClass {
    match v {
        Some(x) => NumberClass::Integer(x),
        None => NumberClass::Invalid,
    }
}

pub open spec fn float_class(p: Seq<char>) -> NumberClass {
    if is_float_text(p) {
        NumberClass::Floating
    } else {
        NumberClass::Invalid
    }
}

/// Numeric literals: a trailing `i`, `u` or `f` forces the reading of what precedes it;
/// without one, the counts of `-` and `.` decide.
pub open spec fn number_class(w: Seq<char>) -> NumberClass {
    let suffixes = count_of(w, 'i') + count_of(w, 'u') + count_of(w, 'f');
    if !(forall|k: int| 0 <= k < w.len() ==> is_number_char(#[trigger] w[k])) {
        NumberClass::Invalid
    } else if suffixes > 1 {
        NumberClass::Invalid
    } else if suffixes == 1 {
        if w.last() == 'i' {
            integer_class(signed_value(w.drop_last()))
        } else if w.last() == 'u' {
            integer_class(unsigned_value(w.drop_last()))
        } else if w.last() == 'f' {
            float_class(w.drop_last())
        } else {
            NumberClass::Invalid
        }
    } else {
        let minus = count_of(w, '-');
        let dots = count_of(w, '.');
        if minus == 1 && dots == 0 {
            integer_class(signed_value(w))
        } else if minus == 0 && dots == 0 {
            integer_class(unsigned_value(w))
        } else if dots == 1 && minus <= 1 {
            float_class(w)
        } else {
            NumberClass::Invalid
        }
    }
}

/// A word with a character no number has, or more than one suffix letter: it is
/// refused before any reading, and the lexer does not move past it.
pub open spec fn number_malformed(w: Seq<char>) -> bool {
    ||| !(forall|k: int| 0 <= k < w.len() ==> is_number_char(#[trigger] w[k]))
    ||| count_of(w, 'i') + count_of(w, 'u') + count_of(w, 'f') > 1
}

/// The token for a word that is no keyword, boolean, character, string or symbol.
pub open spec fn number_token(w: Seq<char>, t: Token) -> bool {
    match number_class(w) {
        NumberClass::Integer(v) => t == Token::Literal(BasicType::Number(NumericType::Integer(v as i64))),
        NumberClass::Floating => t matches Token::Literal(BasicType::Number(NumericType::Floating(_))),
        NumberClass::Invalid => t == Token::Invalid,
    }
}

/// The token that starts at position `i` of `s`, and how many characters it takes.
/// The first rule that applies wins: parentheses and blanks, then on the word at `i`
/// the keyword table, `#t` and `#f`, character literals, strings, symbols, numbers.
pub open spec fn lexes_as(s: Seq<char>, i: int, t: Option<Token>, advance: int) -> bool {
    if i >= s.len() {
        t is None && advance == 0
    } else if s[i] == '(' {
        t == Some(Token::LParen) && advance == 1
    } else if s[i] == ')' {
        t == Some(Token::RParen) && advance == 1
    } else if is_space(s[i]) {
        t == Some(Token::Whitespace) && advance == 1
    } else {
        let w = word_at(s, i);
        if spec_from_str(w) is Some {
            t == Some(Token::Operator(spec_from_str(w)->0)) && advance == w.len()
        } else if w == "#t"@ {
            t == Some(Token::Literal(BasicType::Boolean(true))) && advance == w.len()
        } else if w == "#f"@ {
            t == Some(Token::Literal(BasicType::Boolean(false))) && advance == w.len()
        } else if char_literal(w) is Some {
            t == Some(Token::Literal(BasicType::Character(char_literal(w)->0))) && advance == w.len()
        } else if s[i] == '"' {
            match string_end(s, i + 1) {
                Some(j) => t matches Some(Token::Literal(BasicType::Text(x))) && x@ == s.subrange(i + 1, j)
                    && advance == j + 1 - i,
                None => t == Some(Token::Invalid) && advance == 0,
            }
        } else if is_symbol_start(s[i]) {
            t matches Some(Token::Symbol(x)) && x@ == w && advance == w.len()
        } else {
            t is Some && number_token(w, t->0) && advance == (if number_malformed(w) {
                0
            } else {
                w.len()
            })
        }
    }
}

proof fn lemma_decimal_prefix(d: Seq<char>, k: int)
    requires
        0 <= k <= d.len(),
        forall|j: int| 0 <= j < d.len() ==> is_digit(#[trigger] d[j]),
    ensures
        0 <= decimal_value(d.subrange(0, k)) <= decimal_value(d),
    decreases d.len(),
{
    if k == d.len() {
        assert(d.subrange(0, k) == d);
        lemma_decimal_nonneg(d);
    } else {
        let e = d.drop_last();
        lemma_decimal_prefix(e, k);
        assert(e.subrange(0, k) == d.subrange(0, k));
        assert(is_digit(d[d.len() - 1]));
    }
}

proof fn lemma_decimal_nonneg(d: Seq<char>)
    requires
        forall|j: int| 0 <= j < d.len() ==> is_digit(#[trigger] d[j]),
    ensures
        decimal_value(d) >= 0,
    decreases d.len(),
{
    if d.len() > 0 {
        lemma_decimal_nonneg(d.drop_last());
        assert(is_digit(d[d.len() - 1]));
    }
}

/// The value of the digits `w[start..end]`, where they are all digits and the value is
/// at most `limit`.
fn digits_value(w: &Vec<char>, start: usize, end: usize, limit: u64) -> (r: Option<u64>)
    requires
        start <= end <= w@.len(),
        9 <= limit <= 0x8000_0000_0000_0000,
    ensures
        match r {
            Some(v) => all_digits(w@.subrange(start as int, end as int)) && v == decimal_value(
                w@.subrange(start as int, end as int),
            ) && v <= limit,
            None => !(all_digits(w@.subrange(start as int, end as int)) && decimal_value(
                w@.subrange(start as int, end as int),
            ) <= limit),
        },
{
    let ghost d = w@.subrange(start as int, end as int);
    if start == end {
        return None;
    }
    let mut acc: u64 = 0;
    let mut i: usize = start;
    while i < end
        invariant
            start <= i <= end <= w@.len(),
            9 <= limit <= 0x8000_0000_0000_0000,
            d == w@.subrange(start as int, end as int),
            forall|j: int| start <= j < i ==> is_digit(#[trigger] w@[j]),
            acc == decimal_value(w@.subrange(start as int, i as int)),
            acc <= limit,
        decreases end - i,
    {
        let c = w[i];
        let ghost pre = w@.subrange(start as int, i as int);
        let ghost next = w@.subrange(start as int, i + 1);
        assert(next.drop_last() == pre);
        if !('0' <= c && c <= '9') {
            assert(d[i - start] == c);
            return None;
        }
        let digit = (c as u32 - '0' as u32) as u64;
        assert(decimal_value(next) == acc * 10 + digit);
        if acc > (limit - digit) / 10 {
            assert(acc * 10 + digit > limit) by (nonlinear_arith)
                requires
                    acc > (limit - digit) / 10,
                    digit <= 9,
                    9 <= limit,
            ;
            proof {
                if all_digits(d) {
                    assert(d.subrange(0, i + 1 - start) == next);
                    lemma_decimal_prefix(d, i + 1 - start);
                }
            }
            return None;
        }
        assert(acc * 10 + digit <= limit) by (nonlinear_arith)
            requires
                acc <= (limit - digit) / 10,
                digit <= limit,
        ;
        acc = acc * 10 + digit;
        i = i + 1;
    }
    assert(w@.subrange(start as int, i as int) == d);
    Some(acc)
}

/// The value of the integer literal `w[start..end]`.
fn parse_signed(w: &Vec<char>, start: usize, end: usize) -> (r: Option<i64>)
    requires
        start <= end <= w@.len(),
    ensures
        match signed_value(w@.subrange(start as int, end as int)) {
            Some(x) => r == Some(x as i64),
            None => r is None,
        },
{
    let ghost p = w@.subrange(start as int, end as int);
    if end > start && w[start] == '-' {
        assert(p.drop_first() == w@.subrange(start + 1, end as int));
        assert(!is_digit(p[0]));
        match digits_value(w, start + 1, end, 0x8000_0000_0000_0000) {
            Some(v) => {
                if v == 0x8000_0000_0000_0000 {
                    Some(i64::MIN)
                } else {
                    Some(-(v as i64))
                }
            },
            None => None,
        }
    } else {
        match digits_value(w, start, end, 0x7fff_ffff_ffff_ffff) {
            Some(v) => Some(v as i64),
            None => None,
        }
    }
}

/// The value of the unsigned literal `w[start..end]`.
fn parse_unsigned(w: &Vec<char>, start: usize, end: usize) -> (r: Option<i64>)
    requires
        start <= end <= w@.len(),
    ensures
        match unsigned_value(w@.subrange(start as int, end as int)) {
            Some(x) => r == Some(x as i64),
            None => r is None,
        },
{
    match digits_value(w, start, end, 0x7fff_ffff_ffff_ffff) {
        Some(v) => Some(v as i64),
        None => None,
    }
}

/// How often `c` occurs in `w[start..end]`.
fn count_char(w: &Vec<char>, start: usize, end: usize, c: char) -> (r: usize)
    requires
        start <= end <= w@.len(),
    ensures
        r == count_of(w@.subrange(start as int, end as int), c),
{
    let mut n: usize = 0;
    let mut i: usize = start;
    while i < end
        invariant
            start <= i <= end <= w@.len(),
            n == count_of(w@.subrange(start as int, i as int), c),
            n <= i - start,
        decreases end - i,
    {
        assert(w@.subrange(start as int, i + 1).drop_last() == w@.subrange(start as int, i as int));
        if w[i] == c {
            n = n + 1;
        }
        i = i + 1;
    }
    n
}

/// Whether `w[start..end]` is a decimal float.
fn float_text_ok(w: &Vec<char>, start: usize, end: usize) -> (r: bool)
    requires
        start <= end <= w@.len(),
    ensures
        r == is_float_text(w@.subrange(start as int, end as int)),
{
    let ghost p = w@.subrange(start as int, end as int);
    let body_start = if end > start && w[start] == '-' { start + 1 } else { start };
    let ghost body = w@.subrange(body_start as int, end as int);
    assert(body == (if p.len() > 0 && p[0] == '-' { p.drop_first() } else { p }));
    let mut chars_ok = true;
    let mut seen_digit = false;
    let mut i: usize = body_start;
    while i < end
        invariant
            body_start <= i <= end <= w@.len(),
            body == w@.subrange(body_start as int, end as int),
            chars_ok == (forall|k: int| body_start <= k < i ==> is_digit(#[trigger] w@[k]) || w@[k] == '.'),
            seen_digit == (exists|k: int| body_start <= k < i && is_digit(#[trigger] w@[k])),
        decreases end - i,
    {
        let c = w[i];
        if '0' <= c && c <= '9' {
            seen_digit = true;
        } else if c != '.' {
            chars_ok = false;
        }
        i = i + 1;
    }
    let dots = count_char(w, body_start, end, '.');
    proof {
        if chars_ok {
            assert forall|k: int| 0 <= k < body.len() implies is_digit(#[trigger] body[k]) || body[k] == '.' by {
                assert(body[k] == w@[body_start + k]);
            }
        } else {
            let k = choose|k: int| body_start <= k < end && !(is_digit(#[trigger] w@[k]) || w@[k] == '.');
            assert(body[k - body_start] == w@[k]);
        }
        if seen_digit {
            let k = choose|k: int| body_start <= k < end && is_digit(#[trigger] w@[k]);
            assert(is_digit(body[k - body_start]));
        } else {
            assert forall|k: int| 0 <= k < body.len() implies !is_digit(#[trigger] body[k]) by {
                assert(body[k] == w@[body_start + k]);
            }
        }
        assert(chars_ok == digits_and_dots(body));
        assert(seen_digit == has_digit(body));
        assert(dots == count_of(body, '.'));
        assert(is_float_text(p) == (chars_ok && dots <= 1 && seen_digit));
    }
    chars_ok && dots <= 1 && seen_digit
}

/// Relies on `String`'s `FromIterator<&char>`: the string holds the characters in order.
#[verifier::external_body]
pub(crate) fn string_of(chars: &[char]) -> (r: String)
    ensures
        r@ == chars@,
{
    chars.iter().collect()
}

/// A copy of `w[start..end]`.
fn sub_vec(w: &Vec<char>, start: usize, end: usize) -> (r: Vec<char>)
    requires
        start <= end <= w@.len(),
    ensures
        r@ == w@.subrange(start as int, end as int),
{
    let mut r: Vec<char> = Vec::new();
    let mut i: usize = start;
    while i < end
        invariant
            start <= i <= end <= w@.len(),
            r@ == w@.subrange(start as int, i as int),
        decreases end - i,
    {
        r.push(w[i]);
        i = i + 1;
    }
    r
}

/// The token for a word that reads as a number.
fn classify_number<F: FloatOps>(w: &Vec<char>, ops: &F) -> (r: (Token, bool))
    ensures
        number_token(w@, r.0),
        r.1 == !number_malformed(w@),
{
    let n = w.len();
    let mut i: usize = 0;
    while i < n
        invariant
            n == w@.len(),
            i <= n,
            forall|k: int| 0 <= k < i ==> is_number_char(#[trigger] w@[k]),
        decreases n - i,
    {
        let c = w[i];
        if !(('0' <= c && c <= '9') || c == '-' || c == '.' || c == 'i' || c == 'u' || c == 'f') {
            assert(!is_number_char(w@[i as int]));
            return (Token::Invalid, false);
        }
        i = i + 1;
    }
    assert(w@.subrange(0, n as int) == w@);
    let ni = count_char(w, 0, n, 'i');
    let nu = count_char(w, 0, n, 'u');
    let nf = count_char(w, 0, n, 'f');
    if ni > 1 || nu > 1 || nf > 1 || ni + nu + nf > 1 {
        return (Token::Invalid, false);
    }
    let t = if ni + nu + nf == 1 {
        let last = w[n - 1];
        assert(w@.drop_last() == w@.subrange(0, n - 1));
        if last == 'i' {
            match parse_signed(w, 0, n - 1) {
                Some(v) => Token::Literal(BasicType::Number(NumericType::Integer(v))),
                None => Token::Invalid,
            }
        } else if last == 'u' {
            match parse_unsigned(w, 0, n - 1) {
                Some(v) => Token::Literal(BasicType::Number(NumericType::Integer(v))),
                None => Token::Invalid,
            }
        } else if last == 'f' {
            if float_text_ok(w, 0, n - 1) {
                let text = sub_vec(w, 0, n - 1);
                let s = string_of(text.as_slice());
                Token::Literal(BasicType::Number(NumericType::Floating(ops.from_decimal(s.as_str()))))
            } else {
                Token::Invalid
            }
        } else {
            Token::Invalid
        }
    } else {
        let minus = count_char(w, 0, n, '-');
        let dots = count_char(w, 0, n, '.');
        if minus == 1 && dots == 0 {
            match parse_signed(w, 0, n) {
                Some(v) => Token::Literal(BasicType::Number(NumericType::Integer(v))),
                None => Token::Invalid,
            }
        } else if minus == 0 && dots == 0 {
            match parse_unsigned(w, 0, n) {
                Some(v) => Token::Literal(BasicType::Number(NumericType::Integer(v))),
                None => Token::Invalid,
            }
        } else if dots == 1 && minus <= 1 {
            if float_text_ok(w, 0, n) {
                let s = string_of(w.as_slice());
                Token::Literal(BasicType::Number(NumericType::Floating(ops.from_decimal(s.as_str()))))
            } else {
                Token::Invalid
            }
        } else {
            Token::Invalid
        }
    };
    (t, true)
}

/// Whether the characters of `w` spell `lit`.
fn chars_are(w: &Vec<char>, lit: &str) -> (r: bool)
    ensures
        r == (w@ == lit@),
{
    let n = lit.unicode_len();
    if w.len() != n {
        return false;
    }
    let mut i: usize = 0;
    while i < n
        invariant
            n == lit@.len(),
            n == w@.len(),
            i <= n,
            w@.subrange(0, i as int) == lit@.subrange(0, i as int),
        decreases n - i,
    {
        if w[i] != lit.get_char(i) {
            return false;
        }
        assert(w@.subrange(0, i + 1) == w@.subrange(0, i as int).push(w@[i as int]));
        assert(lit@.subrange(0, i + 1) == lit@.subrange(0, i as int).push(lit@[i as int]));
        i = i + 1;
    }
    assert(w@ == w@.subrange(0, n as int));
    assert(lit@ == lit@.subrange(0, n as int));
    true
}

/// The character that a `#\` literal denotes.
fn char_literal_of(w: &Vec<char>) -> (r: Option<char>)
    ensures
        r == char_literal(w@),
{
    if w.len() < 2 || w[0] != '#' || w[1] != '\\' {
        None
    } else if w.len() == 2 {
        Some(' ')
    } else if w.len() == 3 {
        Some(w[2])
    } else if chars_are(w, "#\\space") {
        Some(' ')
    } else if chars_are(w, "#\\newline") {
        Some('\n')
    } else {
        None
    }
}

fn is_space_char(c: char) -> (r: bool)
    ensures
        r == is_space(c),
{
    c == ' ' || c == '\t' || c == '\n' || c == '\r'
}

/// A source text and the position of the next character to read.
pub struct TokenStream {
    pub text: Vec<char>,
    pub index: usize,
}

/// The first position at or after `i` that does not hold a blank.
pub open spec fn skip_blanks(s: Seq<char>, i: int) -> int
    decreases s.len() - i,
{
    if i >= s.len() || i < 0 {
        i
    } else if is_space(s[i]) {
        skip_blanks(s, i + 1)
    } else {
        i
    }
}

/// The tokens `toks`, read one after another from position `start` of `s` with blank
/// space before each passed over, end at position `end`.
pub open spec fn lexes_prefix(s: Seq<char>, start: int, toks: Seq<Token>, end: int) -> bool
    decreases toks.len(),
{
    if toks.len() == 0 {
        end == start
    } else {
        exists|k: int, adv: int|
            #![trigger lexes_as(s, skip_blanks(s, k), Some(toks.last()), adv)]
            lexes_prefix(s, start, toks.drop_last(), k) && lexes_as(
                s,
                skip_blanks(s, k),
                Some(toks.last()),
                adv,
            ) && end == skip_blanks(s, k) + adv
    }
}

/// `toks` are the tokens of `s` from position `start` on, up to the end of the text or
/// to the first invalid token, whichever comes first.
pub open spec fn tokenizes_from(s: Seq<char>, start: int, toks: Seq<Token>) -> bool {
    &&& forall|k: int| 0 <= k < toks.len() - 1 ==> !(#[trigger] toks[k] is Invalid)
    &&& exists|end: int|
        lexes_prefix(s, start, toks, end) && (skip_blanks(s, end) >= s.len() || (toks.len() > 0
            && toks.last() is Invalid))
}

/// `toks` are all the tokens of `s`.
pub open spec fn tokenizes(s: Seq<char>, toks: Seq<Token>) -> bool {
    tokenizes_from(s, 0, toks)
}

impl TokenStream {
    /// A stream at the start of `source`.
    pub fn new(source: &str) -> (r: TokenStream)
        ensures
            r.text@ == source@,
            r.index == 0,
    {
        let n = source.unicode_len();
        let mut text: Vec<char> = Vec::new();
        let mut i: usize = 0;
        while i < n
            invariant
                n == source@.len(),
                i <= n,
                text@ == source@.subrange(0, i as int),
            decreases n - i,
        {
            text.push(source.get_char(i));
            i = i + 1;
        }
        assert(source@.subrange(0, n as int) == source@);
        TokenStream { text, index: 0 }
    }

    fn word_end_from(&self, i: usize) -> (r: usize)
        requires
            i <= self.text@.len(),
        ensures
            r == word_end(self.text@, i as int),
            i <= r <= self.text@.len(),
            i < self.text@.len() && !is_delimiter(self.text@[i as int]) ==> r > i,
    {
        let n = self.text.len();
        let mut j: usize = i;
        while j < n && !(is_space_char(self.text[j]) || self.text[j] == '(' || self.text[j] == ')')
            invariant
                n == self.text@.len(),
                i <= j <= n,
                word_end(self.text@, i as int) == word_end(self.text@, j as int),
            decreases n - j,
        {
            j = j + 1;
        }
        j
    }

    fn string_close(&self, k: usize) -> (r: Option<usize>)
        requires
            k <= self.text@.len(),
        ensures
            r matches Some(j) ==> string_end(self.text@, k as int) == Some(j as int) && k <= j
                < self.text@.len(),
            r is None ==> string_end(self.text@, k as int) is None,
    {
        let n = self.text.len();
        let mut j: usize = k;
        while j < n
            invariant
                n == self.text@.len(),
                k <= j <= n,
                string_end(self.text@, k as int) == string_end(self.text@, j as int),
            decreases n - j,
        {
            if self.text[j] == '"' {
                return Some(j);
            }
            if self.text[j] == '\\' {
                if j + 1 >= n {
                    assert(string_end(self.text@, j + 2) is None);
                    return None;
                }
                j = j + 2;
            } else {
                j = j + 1;
            }
        }
        None
    }

    /// The token at the current position and how many characters it takes,
    /// without moving.
    pub fn next_token_type<F: FloatOps>(&self, ops: &F) -> (r: (Option<Token>, usize))
        ensures
            lexes_as(self.text@, self.index as int, r.0, r.1 as int),
            self.index < self.text@.len() ==> r.1 <= self.text@.len() - self.index,
            self.index >= self.text@.len() ==> r.1 == 0,
            r.0 matches Some(t) && !(t is Invalid) ==> r.1 >= 1,
    {
        let n = self.text.len();
        let i = self.index;
        if i >= n {
            return (None, 0);
        }
        let c = self.text[i];
        if c == '(' {
            return (Some(Token::LParen), 1);
        }
        if c == ')' {
            return (Some(Token::RParen), 1);
        }
        if is_space_char(c) {
            return (Some(Token::Whitespace), 1);
        }
        let e = self.word_end_from(i);
        let wlen = e - i;
        let word = sub_vec(&self.text, i, e);
        let word_str = string_of(word.as_slice());
        if let Some(op) = from_str(word_str.as_str()) {
            return (Some(Token::Operator(op)), wlen);
        }
        if chars_are(&word, "#t") {
            return (Some(Token::Literal(BasicType::Boolean(true))), wlen);
        }
        if chars_are(&word, "#f") {
            return (Some(Token::Literal(BasicType::Boolean(false))), wlen);
        }
        if let Some(ch) = char_literal_of(&word) {
            return (Some(Token::Literal(BasicType::Character(ch))), wlen);
        }
        if c == '"' {
            return match self.string_close(i + 1) {
                Some(j) => {
                    assert(string_end(self.text@, i + 1) == Some(j as int));
                    let contents = sub_vec(&self.text, i + 1, j);
                    (Some(Token::Literal(BasicType::Text(string_of(contents.as_slice())))), j + 1 - i)
                },
                None => (Some(Token::Invalid), 0),
            };
        }
        if ('a' <= c && c <= 'z') || ('A' <= c && c <= 'Z') || c == '_' || c == '*' {
            return (Some(Token::Symbol(word_str)), wlen);
        }
        let (t, consumed) = classify_number(&word, ops);
        (Some(t), if consumed { wlen } else { 0 })
    }

    /// Hands out the next token that is not blank space, and moves past it.
    pub fn next<F: FloatOps>(&mut self, ops: &F) -> (r: Option<Token>)
        ensures
            final(self).text@ == old(self).text@,
            lexes_as(
                old(self).text@,
                skip_blanks(old(self).text@, old(self).index as int),
                r,
                final(self).index - skip_blanks(old(self).text@, old(self).index as int),
            ),
            r is Some ==> old(self).index <= final(self).index <= final(self).text@.len(),
            r matches Some(t) && !(t is Invalid) ==> old(self).index < final(self).index,
            r is None ==> skip_blanks(old(self).text@, old(self).index as int) >= old(self).text@.len(),
    {
        self.skip_whitespace();
        let (token, advance) = self.next_token_type(ops);
        if self.index < self.text.len() {
            assert(advance <= self.text@.len() - self.index);
            self.index = self.index + advance;
        } else {
            assert(advance == 0);
        }
        token
    }

    /// The next token that is not blank space, without moving past it; the blank
    /// space before it is passed over.
    pub fn peek<F: FloatOps>(&mut self, ops: &F) -> (r: Option<Token>)
        ensures
            final(self).text@ == old(self).text@,
            final(self).index == skip_blanks(old(self).text@, old(self).index as int),
            exists|advance: int| lexes_as(old(self).text@, final(self).index as int, r, advance),
    {
        self.skip_whitespace();
        let (token, advance) = self.next_token_type(ops);
        assert(lexes_as(self.text@, self.index as int, token, advance as int));
        token
    }

    /// Reads the remaining tokens, stopping after the first invalid one.
    pub fn collect_tokens<F: FloatOps>(&mut self, ops: &F) -> (r: Vec<Token>)
        ensures
            final(self).text@ == old(self).text@,
            tokenizes_from(old(self).text@, old(self).index as int, r@),
    {
        let ghost s = self.text@;
        let ghost start = self.index as int;
        let mut out: Vec<Token> = Vec::new();
        loop
            invariant
                self.text@ == s,
                s == old(self).text@,
                start == old(self).index as int,
                lexes_prefix(s, start, out@, self.index as int),
                forall|k: int| 0 <= k < out@.len() ==> !(#[trigger] out@[k] is Invalid),
            decreases if self.index <= self.text@.len() { self.text@.len() - self.index } else { 0 },
        {
            let ghost before = self.index as int;
            match self.next(ops) {
                None => {
                    assert(lexes_prefix(s, start, out@, before) && skip_blanks(s, before) >= s.len());
                    return out;
                },
                Some(tok) => {
                    let ghost k = skip_blanks(s, before);
                    let ghost adv = self.index - k;
                    let ghost prev = out@;
                    let invalid = matches!(tok, Token::Invalid);
                    out.push(tok);
                    proof {
                        assert(out@.drop_last() == prev);
                        assert(lexes_prefix(s, start, prev, before) && lexes_as(s, k, Some(out@.last()), adv)
                            && self.index as int == k + adv);
                    }
                    if invalid {
                        assert(lexes_prefix(s, start, out@, self.index as int));
                        return out;
                    }
                },
            }
        }
    }

    /// Moves past blank space.
    fn skip_whitespace(&mut self)
        ensures
            final(self).text@ == old(self).text@,
            final(self).index == skip_blanks(old(self).text@, old(self).index as int),
            final(self).index >= old(self).index,
    {
        let n = self.text.len();
        while self.index < n && is_space_char(self.text[self.index])
            invariant
                n == self.text@.len(),
                self.text@ == old(self).text@,
                skip_blanks(self.text@, old(self).index as int) == skip_blanks(self.text@, self.index as int),
                old(self).index <= self.index,
            decreases n - self.index,
        {
            self.index = self.index + 1;
        }
    }
}

} // verus!
