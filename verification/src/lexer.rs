//! The tokenizer: raw source text to a sequence of spanned tokens.
//!
//! Tokens are matched longest-first, so `source` is a keyword and `sources`
//! an identifier, and `-5` is an integer literal while `- 5` is a minus
//! followed by an integer. A maximal run of characters that no rule
//! recognizes becomes a single [`Token::Error`] covering the run, so a
//! caller can keep scanning past bad input. Whitespace (space, tab, form
//! feed, newline) is skipped and never emitted. Spans count characters
//! from the start of the source.
//!
//! String literals are stored raw: the surrounding quotes stay and escape
//! sequences are not decoded. Integer literals must fit a signed 64-bit
//! value; a digit run that does not fit becomes an [`Token::Error`] over
//! the run.

use vstd::prelude::*;

use crate::span::Span;

verus! {

/// One lexical token of the query language.
#[derive(Clone, Debug, PartialEq)]
pub enum Token {
    /// A run of characters that no lexical rule recognizes.
    Error,
    KeywordSource,
    KeywordWhere,
    KeywordSort,
    KeywordLimit,
    KeywordAggregate,
    KeywordBy,
    Pipe,
    LeftParenthesis,
    RightParenthesis,
    OperatorAdd,
    OperatorSubtract,
    OperatorMultiply,
    OperatorDivide,
    OperatorEqual,
    OperatorNotEqual,
    OperatorGreaterThan,
    OperatorGreaterThanOrEqual,
    OperatorLessThan,
    OperatorLessThanOrEqual,
    OperatorAnd,
    OperatorOr,
    OperatorAssign,
    /// A signed 64-bit integer literal.
    Integer(i64),
    /// A double-quoted string literal, kept raw: quotes and escapes included.
    StringLiteral(String),
    Identifier(String),
    Comma,
    /// Recognized and discarded by the tokenizer; never emitted.
    Whitespace,
}

/// The model of a [`Token`]: the same tags over `int` and `Seq<char>`.
pub enum TokenModel {
    Error,
    KeywordSource,
    KeywordWhere,
    KeywordSort,
    KeywordLimit,
    KeywordAggregate,
    KeywordBy,
    Pipe,
    LeftParenthesis,
    RightParenthesis,
    OperatorAdd,
    OperatorSubtract,
    OperatorMultiply,
    OperatorDivide,
    OperatorEqual,
    OperatorNotEqual,
    OperatorGreaterThan,
    OperatorGreaterThanOrEqual,
    OperatorLessThan,
    OperatorLessThanOrEqual,
    OperatorAnd,
    OperatorOr,
    OperatorAssign,
    Integer(int),
    StringLiteral(Seq<char>),
    Identifier(Seq<char>),
    Comma,
    Whitespace,
}

impl View for Token {
    type V = TokenModel;

    open spec fn view(&self) -> TokenModel {
        match *self {
            Token::Error => TokenModel::Error,
            Token::KeywordSource => TokenModel::KeywordSource,
            Token::KeywordWhere => TokenModel::KeywordWhere,
            Token::KeywordSort => TokenModel::KeywordSort,
            Token::KeywordLimit => TokenModel::KeywordLimit,
            Token::KeywordAggregate => TokenModel::KeywordAggregate,
            Token::KeywordBy => TokenModel::KeywordBy,
            Token::Pipe => TokenModel::Pipe,
            Token::LeftParenthesis => TokenModel::LeftParenthesis,
            Token::RightParenthesis => TokenModel::RightParenthesis,
            Token::OperatorAdd => TokenModel::OperatorAdd,
            Token::OperatorSubtract => TokenModel::OperatorSubtract,
            Token::OperatorMultiply => TokenModel::OperatorMultiply,
            Token::OperatorDivide => TokenModel::OperatorDivide,
            Token::OperatorEqual => TokenModel::OperatorEqual,
            Token::OperatorNotEqual => TokenModel::OperatorNotEqual,
            Token::OperatorGreaterThan => TokenModel::OperatorGreaterThan,
            Token::OperatorGreaterThanOrEqual => TokenModel::OperatorGreaterThanOrEqual,
            Token::OperatorLessThan => TokenModel::OperatorLessThan,
            Token::OperatorLessThanOrEqual => TokenModel::OperatorLessThanOrEqual,
            Token::OperatorAnd => TokenModel::OperatorAnd,
            Token::OperatorOr => TokenModel::OperatorOr,
            Token::OperatorAssign => TokenModel::OperatorAssign,
            Token::Integer(n) => TokenModel::Integer(n as int),
            Token::StringLiteral(ref s) => TokenModel::StringLiteral(s@),
            Token::Identifier(ref s) => TokenModel::Identifier(s@),
            Token::Comma => TokenModel::Comma,
            Token::Whitespace => TokenModel::Whitespace,
        }
    }
}

// ---------------------------------------------------------------------------
// Character classes
// ---------------------------------------------------------------------------

/// The characters that the tokenizer skips: space, tab, form feed, newline.
pub open spec fn is_whitespace_char(c: char) -> bool {
    c == ' ' || c == '\t' || c == '\u{c}' || c == '\n'
}

pub open spec fn is_digit_char(c: char) -> bool {
    '0' as u32 <= c as u32 && c as u32 <= '9' as u32
}

/// The characters that may start an identifier: a letter or an underscore.
pub open spec fn is_identifier_start_char(c: char) -> bool {
    ('a' as u32 <= c as u32 && c as u32 <= 'z' as u32)
        || ('A' as u32 <= c as u32 && c as u32 <= 'Z' as u32)
        || c == '_'
}

/// The characters that may continue an identifier.
pub open spec fn is_identifier_char(c: char) -> bool {
    is_identifier_start_char(c) || is_digit_char(c)
}

/// The characters allowed after a backslash inside a string literal.
pub open spec fn is_string_escape_char(c: char) -> bool {
    c == 't' || c == 'u' || c == 'n' || c == '"'
}

// ---------------------------------------------------------------------------
// The lexical rules, as functions of the character sequence
// ---------------------------------------------------------------------------

/// The end of the run of digits that starts at `i`.
pub open spec fn digit_run_end(s: Seq<char>, i: int) -> int
    decreases s.len() - i,
{
    if 0 <= i < s.len() && is_digit_char(s[i]) {
        digit_run_end(s, i + 1)
    } else {
        i
    }
}

/// The end of the run of identifier characters that starts at `i`.
pub open spec fn identifier_run_end(s: Seq<char>, i: int) -> int
    decreases s.len() - i,
{
    if 0 <= i < s.len() && is_identifier_char(s[i]) {
        identifier_run_end(s, i + 1)
    } else {
        i
    }
}

/// The value of the digit run `s[i..j]`, read in decimal.
pub open spec fn digits_value(s: Seq<char>, i: int, j: int) -> int
    decreases j - i,
{
    if j <= i {
        0
    } else {
        digits_value(s, i, j - 1) * 10 + (s[j - 1] as u32 - '0' as u32)
    }
}

/// Scanning the body of a string literal from `j` (just after the opening
/// quote): the position right after the closing quote, or `None` when the
/// literal never closes or a backslash is followed by a character outside
/// the escape set.
pub open spec fn string_body_end(s: Seq<char>, j: int) -> Option<int>
    decreases s.len() - j,
{
    if !(0 <= j < s.len()) {
        Option::None
    } else if s[j] == '"' {
        Option::Some(j + 1)
    } else if s[j] == '\\' {
        if j + 1 < s.len() && is_string_escape_char(s[j + 1]) {
            string_body_end(s, j + 2)
        } else {
            Option::None
        }
    } else {
        string_body_end(s, j + 1)
    }
}

/// A word is either one of the eight keywords or an identifier.
pub open spec fn keyword_token(w: Seq<char>) -> TokenModel {
    if w == "source"@ {
        TokenModel::KeywordSource
    } else if w == "where"@ {
        TokenModel::KeywordWhere
    } else if w == "sort"@ {
        TokenModel::KeywordSort
    } else if w == "limit"@ {
        TokenModel::KeywordLimit
    } else if w == "aggr"@ {
        TokenModel::KeywordAggregate
    } else if w == "by"@ {
        TokenModel::KeywordBy
    } else if w == "and"@ {
        TokenModel::OperatorAnd
    } else if w == "or"@ {
        TokenModel::OperatorOr
    } else {
        TokenModel::Identifier(w)
    }
}

/// The token for the digit run `s[i..j]`, negated when `negative`. A value
/// outside the signed 64-bit range is an error token over the same span.
pub open spec fn integer_token(s: Seq<char>, i: int, j: int, negative: bool) -> TokenModel {
    let v = digits_value(s, i, j);
    if negative {
        if v <= 0x8000000000000000 {
            TokenModel::Integer(-v)
        } else {
            TokenModel::Error
        }
    } else {
        if v <= 0x7fffffffffffffff {
            TokenModel::Integer(v)
        } else {
            TokenModel::Error
        }
    }
}

/// The longest token that starts exactly at `i`, with its end position, or
/// `None` when no lexical rule matches at `i`.
pub open spec fn token_at(s: Seq<char>, i: int) -> Option<(TokenModel, int)>
    recommends
        0 <= i < s.len(),
{
    let c = s[i];
    if c == '|' {
        Option::Some((TokenModel::Pipe, i + 1))
    } else if c == '(' {
        Option::Some((TokenModel::LeftParenthesis, i + 1))
    } else if c == ')' {
        Option::Some((TokenModel::RightParenthesis, i + 1))
    } else if c == ',' {
        Option::Some((TokenModel::Comma, i + 1))
    } else if c == '+' {
        Option::Some((TokenModel::OperatorAdd, i + 1))
    } else if c == '*' {
        Option::Some((TokenModel::OperatorMultiply, i + 1))
    } else if c == '/' {
        Option::Some((TokenModel::OperatorDivide, i + 1))
    } else if c == '=' {
        if i + 1 < s.len() && s[i + 1] == '=' {
            Option::Some((TokenModel::OperatorEqual, i + 2))
        } else {
            Option::Some((TokenModel::OperatorAssign, i + 1))
        }
    } else if c == '!' {
        if i + 1 < s.len() && s[i + 1] == '=' {
            Option::Some((TokenModel::OperatorNotEqual, i + 2))
        } else {
            Option::None
        }
    } else if c == '>' {
        if i + 1 < s.len() && s[i + 1] == '=' {
            Option::Some((TokenModel::OperatorGreaterThanOrEqual, i + 2))
        } else {
            Option::Some((TokenModel::OperatorGreaterThan, i + 1))
        }
    } else if c == '<' {
        if i + 1 < s.len() && s[i + 1] == '=' {
            Option::Some((TokenModel::OperatorLessThanOrEqual, i + 2))
        } else {
            Option::Some((TokenModel::OperatorLessThan, i + 1))
        }
    } else if c == '-' {
        if i + 1 < s.len() && is_digit_char(s[i + 1]) {
            let j = digit_run_end(s, i + 1);
            Option::Some((integer_token(s, i + 1, j, true), j))
        } else {
            Option::Some((TokenModel::OperatorSubtract, i + 1))
        }
    } else if is_digit_char(c) {
        let j = digit_run_end(s, i);
        Option::Some((integer_token(s, i, j, false), j))
    } else if is_identifier_start_char(c) {
        let j = identifier_run_end(s, i + 1);
        Option::Some((keyword_token(s.subrange(i, j)), j))
    } else if c == '"' {
        match string_body_end(s, i + 1) {
            Option::Some(j) => Option::Some((TokenModel::StringLiteral(s.subrange(i, j)), j)),
            Option::None => Option::None,
        }
    } else {
        Option::None
    }
}

/// Whether scanning may resume at `i`: a token starts there or the
/// character is whitespace.
pub open spec fn can_start_token(s: Seq<char>, i: int) -> bool {
    is_whitespace_char(s[i]) || token_at(s, i) is Some
}

/// The end of the run of unrecognized characters that starts before `i`:
/// the first position at or after `i` where scanning may resume.
pub open spec fn error_run_end(s: Seq<char>, i: int) -> int
    decreases s.len() - i,
{
    if !(0 <= i < s.len()) {
        i
    } else if can_start_token(s, i) {
        i
    } else {
        error_run_end(s, i + 1)
    }
}

/// The token sequence of `s` from position `i` on: each element is a token
/// model with the start and end of its span.
pub open spec fn spec_tokens_from(s: Seq<char>, i: int) -> Seq<(TokenModel, int, int)>
    decreases s.len() - i,
{
    if !(0 <= i < s.len()) {
        Seq::empty()
    } else if is_whitespace_char(s[i]) {
        spec_tokens_from(s, i + 1)
    } else {
        match token_at(s, i) {
            Option::Some((t, j)) => if i < j <= s.len() {
                seq![(t, i, j)] + spec_tokens_from(s, j)
            } else {
                seq![(t, i, j)]
            },
            Option::None => {
                let j = error_run_end(s, i + 1);
                if i < j <= s.len() {
                    seq![(TokenModel::Error, i, j)] + spec_tokens_from(s, j)
                } else {
                    seq![(TokenModel::Error, i, j)]
                }
            },
        }
    }
}

/// The full token sequence of `s`.
pub open spec fn spec_tokens(s: Seq<char>) -> Seq<(TokenModel, int, int)> {
    spec_tokens_from(s, 0)
}

} // verus!

verus! {

// ---------------------------------------------------------------------------
// Bounds of the scanning functions
// ---------------------------------------------------------------------------

proof fn lemma_digit_run_end(s: Seq<char>, i: int)
    requires
        0 <= i <= s.len(),
    ensures
        i <= digit_run_end(s, i) <= s.len(),
        forall|k: int| i <= k < digit_run_end(s, i) ==> is_digit_char(s[k]),
        digit_run_end(s, i) < s.len() ==> !is_digit_char(s[digit_run_end(s, i)]),
    decreases s.len() - i,
{
    if i < s.len() && is_digit_char(s[i]) {
        lemma_digit_run_end(s, i + 1);
    }
}

proof fn lemma_identifier_run_end(s: Seq<char>, i: int)
    requires
        0 <= i <= s.len(),
    ensures
        i <= identifier_run_end(s, i) <= s.len(),
        forall|k: int| i <= k < identifier_run_end(s, i) ==> is_identifier_char(s[k]),
        identifier_run_end(s, i) < s.len() ==> !is_identifier_char(s[identifier_run_end(s, i)]),
    decreases s.len() - i,
{
    if i < s.len() && is_identifier_char(s[i]) {
        lemma_identifier_run_end(s, i + 1);
    }
}

proof fn lemma_string_body_end(s: Seq<char>, j: int)
    requires
        0 <= j,
    ensures
        string_body_end(s, j) matches Option::Some(e) ==> j < e <= s.len(),
    decreases s.len() - j,
{
    if 0 <= j < s.len() {
        if s[j] == '"' {
        } else if s[j] == '\\' {
            if j + 1 < s.len() && is_string_escape_char(s[j + 1]) {
                lemma_string_body_end(s, j + 2);
            }
        } else {
            lemma_string_body_end(s, j + 1);
        }
    }
}

proof fn lemma_error_run_end(s: Seq<char>, i: int)
    requires
        0 <= i <= s.len(),
    ensures
        i <= error_run_end(s, i) <= s.len(),
        forall|k: int| i <= k < error_run_end(s, i) ==> !can_start_token(s, k),
        error_run_end(s, i) < s.len() ==> can_start_token(s, error_run_end(s, i)),
    decreases s.len() - i,
{
    if i < s.len() && !can_start_token(s, i) {
        lemma_error_run_end(s, i + 1);
    }
}

/// A token that starts at `i` ends after `i` and within the input.
proof fn lemma_token_at_bounds(s: Seq<char>, i: int)
    requires
        0 <= i < s.len(),
    ensures
        token_at(s, i) matches Option::Some(t_j) ==> i < t_j.1 <= s.len(),
{
    lemma_digit_run_end(s, i);
    if i + 1 <= s.len() {
        lemma_digit_run_end(s, i + 1);
        lemma_identifier_run_end(s, i + 1);
        lemma_string_body_end(s, i + 1);
    }
}

// ---------------------------------------------------------------------------
// Executable character classes
// ---------------------------------------------------------------------------

fn whitespace_char(c: char) -> (r: bool)
    ensures
        r == is_whitespace_char(c),
{
    c == ' ' || c == '\t' || c == '\u{c}' || c == '\n'
}

fn digit_char(c: char) -> (r: bool)
    ensures
        r == is_digit_char(c),
{
    '0' as u32 <= c as u32 && c as u32 <= '9' as u32
}

fn identifier_start_char(c: char) -> (r: bool)
    ensures
        r == is_identifier_start_char(c),
{
    ('a' as u32 <= c as u32 && c as u32 <= 'z' as u32)
        || ('A' as u32 <= c as u32 && c as u32 <= 'Z' as u32)
        || c == '_'
}

fn identifier_char(c: char) -> (r: bool)
    ensures
        r == is_identifier_char(c),
{
    identifier_start_char(c) || digit_char(c)
}

fn string_escape_char(c: char) -> (r: bool)
    ensures
        r == is_string_escape_char(c),
{
    c == 't' || c == 'u' || c == 'n' || c == '"'
}

// ---------------------------------------------------------------------------
// Executable scanners
// ---------------------------------------------------------------------------

fn scan_digit_run(s: &str, i: usize, n: usize) -> (j: usize)
    requires
        n == s@.len(),
        i <= n,
    ensures
        j == digit_run_end(s@, i as int),
        i <= j <= n,
{
    let mut j: usize = i;
    while j < n && digit_char(s.get_char(j))
        invariant
            n == s@.len(),
            i <= j <= n,
            digit_run_end(s@, i as int) == digit_run_end(s@, j as int),
        decreases n - j,
    {
        j = j + 1;
    }
    proof {
        lemma_digit_run_end(s@, j as int);
    }
    j
}

fn scan_identifier_run(s: &str, i: usize, n: usize) -> (j: usize)
    requires
        n == s@.len(),
        i <= n,
    ensures
        j == identifier_run_end(s@, i as int),
        i <= j <= n,
    {
    let mut j: usize = i;
    while j < n && identifier_char(s.get_char(j))
        invariant
            n == s@.len(),
            i <= j <= n,
            identifier_run_end(s@, i as int) == identifier_run_end(s@, j as int),
        decreases n - j,
    {
        j = j + 1;
    }
    proof {
        lemma_identifier_run_end(s@, j as int);
    }
    j
}

fn scan_string_body(s: &str, i: usize, n: usize) -> (r: Option<usize>)
    requires
        n == s@.len(),
        i <= n,
    ensures
        r is None <==> string_body_end(s@, i as int) is None,
        r matches Some(j) ==> string_body_end(s@, i as int) == Option::Some(j as int) && i < j
            <= n,
{
    proof {
        lemma_string_body_end(s@, i as int);
    }
    let mut j: usize = i;
    loop
        invariant
            n == s@.len(),
            i <= j <= n,
            string_body_end(s@, i as int) == string_body_end(s@, j as int),
        decreases n - j,
    {
        if j >= n {
            return None;
        }
        let c = s.get_char(j);
        if c == '"' {
            proof {
                lemma_string_body_end(s@, i as int);
            }
            return Some(j + 1);
        } else if c == '\\' {
            if j + 1 < n && string_escape_char(s.get_char(j + 1)) {
                j = j + 2;
            } else {
                return None;
            }
        } else {
            j = j + 1;
        }
    }
}

/// Character-by-character equality of two string slices.
pub(crate) fn str_eq(a: &str, b: &str) -> (r: bool)
    ensures
        r == (a@ == b@),
{
    let an = a.unicode_len();
    let bn = b.unicode_len();
    if an != bn {
        return false;
    }
    let mut k: usize = 0;
    while k < an
        invariant
            an == a@.len(),
            bn == b@.len(),
            an == bn,
            k <= an,
            forall|m: int| 0 <= m < k ==> a@[m] == b@[m],
        decreases an - k,
    {
        let ca = a.get_char(k);
        let cb = b.get_char(k);
        if ca != cb {
            return false;
        }
        k = k + 1;
    }
    proof {
        assert(a@ =~= b@);
    }
    true
}

} // verus!

verus! {

// ---------------------------------------------------------------------------
// Integer literals
// ---------------------------------------------------------------------------

proof fn lemma_digits_value_nonneg(s: Seq<char>, i: int, j: int)
    requires
        forall|k: int| i <= k < j ==> is_digit_char(s[k]),
    ensures
        digits_value(s, i, j) >= 0,
    decreases j - i,
{
    if j > i {
        lemma_digits_value_nonneg(s, i, j - 1);
    }
}

fn integer_token_exec(s: &str, i: usize, j: usize, n: usize, negative: bool) -> (t: Token)
    requires
        n == s@.len(),
        i < j <= n,
        forall|k: int| i <= k < j ==> is_digit_char(s@[k]),
    ensures
        t@ == integer_token(s@, i as int, j as int, negative),
{
    let limit: u64 = if negative {
        0x8000000000000000
    } else {
        0x7fffffffffffffff
    };
    let mut mag: u64 = 0;
    let mut overflow: bool = false;
    let mut k: usize = i;
    while k < j
        invariant
            n == s@.len(),
            i <= k <= j <= n,
            forall|m: int| i <= m < j ==> is_digit_char(s@[m]),
            limit == if negative {
                0x8000000000000000u64
            } else {
                0x7fffffffffffffffu64
            },
            !overflow ==> mag == digits_value(s@, i as int, k as int) && mag <= limit,
            overflow ==> digits_value(s@, i as int, k as int) > limit,
        decreases j - k,
    {
        proof {
            lemma_digits_value_nonneg(s@, i as int, k as int);
        }
        let c = s.get_char(k);
        let d: u64 = (c as u32 - '0' as u32) as u64;
        if !overflow {
            match mag.checked_mul(10) {
                Some(m10) => match m10.checked_add(d) {
                    Some(m2) => {
                        if m2 > limit {
                            overflow = true;
                        } else {
                            mag = m2;
                        }
                    },
                    None => {
                        overflow = true;
                    },
                },
                None => {
                    overflow = true;
                },
            }
        }
        k = k + 1;
    }
    proof {
        lemma_digits_value_nonneg(s@, i as int, j as int);
    }
    if overflow {
        Token::Error
    } else if negative {
        if mag >= 0x8000000000000000 {
            Token::Integer(i64::MIN)
        } else {
            Token::Integer(-(mag as i64))
        }
    } else {
        Token::Integer(mag as i64)
    }
}

// ---------------------------------------------------------------------------
// Words
// ---------------------------------------------------------------------------

fn classify_word(s: &str, i: usize, j: usize, n: usize) -> (t: Token)
    requires
        n == s@.len(),
        i <= j <= n,
    ensures
        t@ == keyword_token(s@.subrange(i as int, j as int)),
{
    let w = s.substring_char(i, j);
    if str_eq(w, "source") {
        Token::KeywordSource
    } else if str_eq(w, "where") {
        Token::KeywordWhere
    } else if str_eq(w, "sort") {
        Token::KeywordSort
    } else if str_eq(w, "limit") {
        Token::KeywordLimit
    } else if str_eq(w, "aggr") {
        Token::KeywordAggregate
    } else if str_eq(w, "by") {
        Token::KeywordBy
    } else if str_eq(w, "and") {
        Token::OperatorAnd
    } else if str_eq(w, "or") {
        Token::OperatorOr
    } else {
        Token::Identifier(String::from_str(w))
    }
}

// ---------------------------------------------------------------------------
// One token
// ---------------------------------------------------------------------------

/// Scans the longest token that starts exactly at `i`.
fn scan_token(s: &str, i: usize, n: usize) -> (r: Option<(Token, usize)>)
    requires
        n == s@.len(),
        i < n,
    ensures
        r is None <==> token_at(s@, i as int) is None,
        r matches Some(tj) ==> token_at(s@, i as int) == Option::Some((tj.0@, tj.1 as int)) && i
            < tj.1 <= n,
{
    let c = s.get_char(i);
    if c == '|' {
        Some((Token::Pipe, i + 1))
    } else if c == '(' {
        Some((Token::LeftParenthesis, i + 1))
    } else if c == ')' {
        Some((Token::RightParenthesis, i + 1))
    } else if c == ',' {
        Some((Token::Comma, i + 1))
    } else if c == '+' {
        Some((Token::OperatorAdd, i + 1))
    } else if c == '*' {
        Some((Token::OperatorMultiply, i + 1))
    } else if c == '/' {
        Some((Token::OperatorDivide, i + 1))
    } else if c == '=' {
        if i + 1 < n && s.get_char(i + 1) == '=' {
            Some((Token::OperatorEqual, i + 2))
        } else {
            Some((Token::OperatorAssign, i + 1))
        }
    } else if c == '!' {
        if i + 1 < n && s.get_char(i + 1) == '=' {
            Some((Token::OperatorNotEqual, i + 2))
        } else {
            None
        }
    } else if c == '>' {
        if i + 1 < n && s.get_char(i + 1) == '=' {
            Some((Token::OperatorGreaterThanOrEqual, i + 2))
        } else {
            Some((Token::OperatorGreaterThan, i + 1))
        }
    } else if c == '<' {
        if i + 1 < n && s.get_char(i + 1) == '=' {
            Some((Token::OperatorLessThanOrEqual, i + 2))
        } else {
            Some((Token::OperatorLessThan, i + 1))
        }
    } else if c == '-' {
        if i + 1 < n && digit_char(s.get_char(i + 1)) {
            let j = scan_digit_run(s, i + 1, n);
            proof {
                lemma_digit_run_end(s@, i + 1 as int);
            }
            let t = integer_token_exec(s, i + 1, j, n, true);
            Some((t, j))
        } else {
            Some((Token::OperatorSubtract, i + 1))
        }
    } else if digit_char(c) {
        let j = scan_digit_run(s, i, n);
        proof {
            lemma_digit_run_end(s@, i as int);
        }
        let t = integer_token_exec(s, i, j, n, false);
        Some((t, j))
    } else if identifier_start_char(c) {
        let j = scan_identifier_run(s, i + 1, n);
        let t = classify_word(s, i, j, n);
        Some((t, j))
    } else if c == '"' {
        match scan_string_body(s, i + 1, n) {
            Some(j) => {
                let lit = String::from_str(s.substring_char(i, j));
                Some((Token::StringLiteral(lit), j))
            },
            None => None,
        }
    } else {
        None
    }
}

} // verus!

verus! {

// ---------------------------------------------------------------------------
// The tokenizer
// ---------------------------------------------------------------------------

/// The model of one emitted token: its model and the bounds of its span.
pub open spec fn token_pair_model(p: (Token, Span)) -> (TokenModel, int, int) {
    (p.0@, p.1.start as int, p.1.end as int)
}

pub open spec fn token_seq_models(v: Seq<(Token, Span)>) -> Seq<(TokenModel, int, int)> {
    v.map_values(|p: (Token, Span)| token_pair_model(p))
}

/// The emitted tokens carry exactly the token models and spans of `m`.
pub open spec fn tokens_match(v: Seq<(Token, Span)>, m: Seq<(TokenModel, int, int)>) -> bool {
    token_seq_models(v) == m
}

fn can_start_exec(s: &str, j: usize, n: usize) -> (r: bool)
    requires
        n == s@.len(),
        j < n,
    ensures
        r == can_start_token(s@, j as int),
{
    if whitespace_char(s.get_char(j)) {
        true
    } else {
        scan_token(s, j, n).is_some()
    }
}

/// Turns source text into the full sequence of spanned tokens, whitespace
/// discarded. The sequence is exactly [`spec_tokens`] of the source.
pub fn tokenizer(source: &str) -> (r: Vec<(Token, Span)>)
    ensures
        tokens_match(r@, spec_tokens(source@)),
{
    let n = source.unicode_len();
    let mut out: Vec<(Token, Span)> = Vec::new();
    let mut i: usize = 0;
    while i < n
        invariant
            n == source@.len(),
            i <= n,
            spec_tokens(source@) == token_seq_models(out@) + spec_tokens_from(
                source@,
                i as int,
            ),
        decreases n - i,
    {
        let c = source.get_char(i);
        if whitespace_char(c) {
            i = i + 1;
        } else {
            match scan_token(source, i, n) {
                Some((t, j)) => {
                    let ghost prev = out@;
                    let ghost m = (t@, i as int, j as int);
                    out.push((t, Span::new(i..j)));
                    proof {
                        assert(token_seq_models(out@) =~= token_seq_models(prev) + seq![m]);
                        assert(token_seq_models(prev) + (seq![m] + spec_tokens_from(
                            source@,
                            j as int,
                        )) =~= (token_seq_models(prev) + seq![m]) + spec_tokens_from(
                            source@,
                            j as int,
                        ));
                    }
                    i = j;
                },
                None => {
                    let mut j: usize = i + 1;
                    while j < n && !can_start_exec(source, j, n)
                        invariant
                            n == source@.len(),
                            i + 1 <= j <= n,
                            error_run_end(source@, i + 1 as int) == error_run_end(
                                source@,
                                j as int,
                            ),
                        decreases n - j,
                    {
                        j = j + 1;
                    }
                    let ghost prev = out@;
                    let ghost m = (TokenModel::Error, i as int, j as int);
                    out.push((Token::Error, Span::new(i..j)));
                    proof {
                        assert(token_seq_models(out@) =~= token_seq_models(prev) + seq![m]);
                        assert(token_seq_models(prev) + (seq![m] + spec_tokens_from(
                            source@,
                            j as int,
                        )) =~= (token_seq_models(prev) + seq![m]) + spec_tokens_from(
                            source@,
                            j as int,
                        ));
                    }
                    i = j;
                },
            }
        }
    }
    proof {
        assert(spec_tokens(source@) =~= token_seq_models(out@));
    }
    out
}

// ---------------------------------------------------------------------------
// The round trip: tokens and whitespace gaps tile the source
// ---------------------------------------------------------------------------

/// The spans of `m` lie in order inside `s` from position `from` on, each
/// non-empty, none overlapping, and every character between two spans —
/// and after the last — is whitespace.
pub open spec fn spans_tile(s: Seq<char>, m: Seq<(TokenModel, int, int)>, from: int) -> bool
    decreases m.len(),
{
    if m.len() == 0 {
        forall|k: int| from <= k < s.len() ==> is_whitespace_char(s[k])
    } else {
        &&& from <= m[0].1 < m[0].2 <= s.len()
        &&& (forall|k: int| from <= k < m[0].1 ==> is_whitespace_char(s[k]))
        &&& spans_tile(s, m.drop_first(), m[0].2)
    }
}

/// The concatenation, in order, of the whitespace gap before each span
/// with the text of the span itself, and of the tail after the last span.
pub open spec fn reconstruct(s: Seq<char>, m: Seq<(TokenModel, int, int)>, from: int) -> Seq<
    char,
>
    decreases m.len(),
{
    if m.len() == 0 {
        s.subrange(from, s.len() as int)
    } else {
        s.subrange(from, m[0].1) + s.subrange(m[0].1, m[0].2) + reconstruct(
            s,
            m.drop_first(),
            m[0].2,
        )
    }
}

proof fn lemma_spans_tile_from(s: Seq<char>, i: int)
    requires
        0 <= i <= s.len(),
    ensures
        spans_tile(s, spec_tokens_from(s, i), i),
    decreases s.len() - i,
{
    if i < s.len() {
        let m = spec_tokens_from(s, i);
        if is_whitespace_char(s[i]) {
            lemma_spans_tile_from(s, i + 1);
            let m1 = spec_tokens_from(s, i + 1);
            if m1.len() != 0 {
                assert(spans_tile(s, m1.drop_first(), m1[0].2));
            }
        } else {
            match token_at(s, i) {
                Option::Some((t, j)) => {
                    lemma_token_at_bounds(s, i);
                    lemma_spans_tile_from(s, j);
                    assert((seq![(t, i, j)] + spec_tokens_from(s, j)).drop_first()
                        =~= spec_tokens_from(s, j));
                },
                Option::None => {
                    lemma_error_run_end(s, i + 1);
                    let j = error_run_end(s, i + 1);
                    lemma_spans_tile_from(s, j);
                    assert((seq![(TokenModel::Error, i, j)] + spec_tokens_from(s, j)).drop_first()
                        =~= spec_tokens_from(s, j));
                },
            }
        }
    }
}

proof fn lemma_reconstruct_tiled(s: Seq<char>, m: Seq<(TokenModel, int, int)>, from: int)
    requires
        0 <= from <= s.len(),
        spans_tile(s, m, from),
    ensures
        reconstruct(s, m, from) == s.subrange(from, s.len() as int),
    decreases m.len(),
{
    if m.len() != 0 {
        lemma_reconstruct_tiled(s, m.drop_first(), m[0].2);
        assert(s.subrange(from, m[0].1) + s.subrange(m[0].1, m[0].2) + s.subrange(
            m[0].2,
            s.len() as int,
        ) =~= s.subrange(from, s.len() as int));
    }
}

/// Round trip of tokenization: the spans of the emitted tokens sit in
/// order inside the source, every character outside them is whitespace,
/// and concatenating the skipped gaps with the span texts rebuilds the
/// source exactly — no character is lost or duplicated.
pub proof fn lemma_tokens_round_trip(s: Seq<char>)
    ensures
        spans_tile(s, spec_tokens(s), 0),
        reconstruct(s, spec_tokens(s), 0) == s,
{
    lemma_spans_tile_from(s, 0);
    lemma_reconstruct_tiled(s, spec_tokens(s), 0);
    assert(s.subrange(0, s.len() as int) =~= s);
}

} // verus!
