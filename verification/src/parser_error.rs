//! Diagnostics: the ordered, non-empty collection of syntax errors that a
//! failed parse returns.

use vstd::prelude::*;

use crate::span::Span;

verus! {

/// One recoverable syntax error: where it was found and why.
#[derive(Clone, Debug)]
pub struct SyntaxError {
    pub span: Span,
    pub message: String,
}

/// All the syntax errors of one parse attempt, in the order they were
/// found. Never empty.
#[derive(Debug)]
pub struct ParserError {
    errors: Vec<SyntaxError>,
}

impl View for ParserError {
    type V = Seq<SyntaxError>;

    closed spec fn view(&self) -> Seq<SyntaxError> {
        self.errors@
    }
}

impl ParserError {
    /// A diagnostic holds at least one error.
    pub open spec fn wf(&self) -> bool {
        self@.len() > 0
    }

    pub fn new(errors: Vec<SyntaxError>) -> (r: Self)
        requires
            errors@.len() > 0,
        ensures
            r@ == errors@,
            r.wf(),
    {
        Self { errors }
    }

    /// The collected errors, in the order they were recorded.
    pub fn errors(&self) -> (r: &Vec<SyntaxError>)
        ensures
            r@ == self@,
    {
        &self.errors
    }

    pub fn len(&self) -> (r: usize)
        ensures
            r == self@.len(),
    {
        self.errors.len()
    }
}

} // verus!

verus! {

// ---------------------------------------------------------------------------
// Locating an offset in the source
// ---------------------------------------------------------------------------

/// The start of the line that `off` lies on: the position right after
/// the previous newline, or the start of the text.
pub open spec fn spec_line_start(s: Seq<char>, off: int) -> int
    decreases off,
{
    if off <= 0 {
        0
    } else if s[off - 1] == '\n' {
        off
    } else {
        spec_line_start(s, off - 1)
    }
}

/// The end of the line that `off` lies on: the position of the next
/// newline, or the end of the text.
pub open spec fn spec_line_end(s: Seq<char>, off: int) -> int
    decreases s.len() - off,
{
    if !(0 <= off < s.len()) {
        if off < 0 {
            0
        } else {
            off
        }
    } else if s[off] == '\n' {
        off
    } else {
        spec_line_end(s, off + 1)
    }
}

/// The line that `off` lies on, counted from zero.
pub open spec fn spec_line_number(s: Seq<char>, off: int) -> int
    decreases off,
{
    if off <= 0 {
        0
    } else {
        spec_line_number(s, off - 1) + if s[off - 1] == '\n' {
            1int
        } else {
            0int
        }
    }
}

/// The line and column of `offset` in `source`, both counted from zero:
/// the line is the number of newlines before `offset`, the column the
/// distance from the start of its line.
pub fn line_col(source: &str, offset: usize) -> (r: (usize, usize))
    requires
        offset <= source@.len(),
    ensures
        r.0 == spec_line_number(source@, offset as int),
        r.1 == offset - spec_line_start(source@, offset as int),
{
    let mut line: usize = 0;
    let mut start: usize = 0;
    let mut k: usize = 0;
    while k < offset
        invariant
            offset <= source@.len(),
            k <= offset,
            line == spec_line_number(source@, k as int),
            start == spec_line_start(source@, k as int),
            line <= k,
            start <= k,
        decreases offset - k,
    {
        if source.get_char(k) == '\n' {
            line = line + 1;
            start = k + 1;
        }
        k = k + 1;
    }
    (line, start_to_col(offset, start))
}

fn start_to_col(offset: usize, start: usize) -> (r: usize)
    requires
        start <= offset,
    ensures
        r == offset - start,
{
    offset - start
}

} // verus!

verus! {

// ---------------------------------------------------------------------------
// Rendering
// ---------------------------------------------------------------------------

proof fn lemma_line_start_bounds(s: Seq<char>, off: int)
    requires
        0 <= off,
    ensures
        0 <= spec_line_start(s, off) <= off,
    decreases off,
{
    if off > 0 && s[off - 1] != '\n' {
        lemma_line_start_bounds(s, off - 1);
    }
}

proof fn lemma_line_end_bounds(s: Seq<char>, off: int)
    requires
        0 <= off <= s.len(),
    ensures
        off <= spec_line_end(s, off) <= s.len(),
    decreases s.len() - off,
{
    if off < s.len() && s[off] != '\n' {
        lemma_line_end_bounds(s, off + 1);
    }
}

/// The decimal digit `d` as a character.
pub open spec fn spec_digit_char(d: int) -> char {
    if d == 0 {
        '0'
    } else if d == 1 {
        '1'
    } else if d == 2 {
        '2'
    } else if d == 3 {
        '3'
    } else if d == 4 {
        '4'
    } else if d == 5 {
        '5'
    } else if d == 6 {
        '6'
    } else if d == 7 {
        '7'
    } else if d == 8 {
        '8'
    } else {
        '9'
    }
}

/// The decimal digits of `n`, most significant first.
pub open spec fn spec_digits(n: int) -> Seq<char>
    recommends
        n >= 0,
    decreases n,
{
    if n < 10 {
        seq![spec_digit_char(n)]
    } else {
        spec_digits(n / 10) + seq![spec_digit_char(n % 10)]
    }
}

/// `n` spaces.
pub open spec fn spec_spaces(n: int) -> Seq<char>
    decreases n,
{
    if n <= 0 {
        Seq::empty()
    } else {
        spec_spaces(n - 1).push(' ')
    }
}

fn digit_str(d: u8) -> (r: &'static str)
    requires
        d < 10,
    ensures
        r@ == seq![spec_digit_char(d as int)],
{
    proof {
        reveal_strlit("0");
        reveal_strlit("1");
        reveal_strlit("2");
        reveal_strlit("3");
        reveal_strlit("4");
        reveal_strlit("5");
        reveal_strlit("6");
        reveal_strlit("7");
        reveal_strlit("8");
        reveal_strlit("9");
        assert("0"@ =~= seq!['0']);
        assert("1"@ =~= seq!['1']);
        assert("2"@ =~= seq!['2']);
        assert("3"@ =~= seq!['3']);
        assert("4"@ =~= seq!['4']);
        assert("5"@ =~= seq!['5']);
        assert("6"@ =~= seq!['6']);
        assert("7"@ =~= seq!['7']);
        assert("8"@ =~= seq!['8']);
        assert("9"@ =~= seq!['9']);
    }
    if d == 0 {
        "0"
    } else if d == 1 {
        "1"
    } else if d == 2 {
        "2"
    } else if d == 3 {
        "3"
    } else if d == 4 {
        "4"
    } else if d == 5 {
        "5"
    } else if d == 6 {
        "6"
    } else if d == 7 {
        "7"
    } else if d == 8 {
        "8"
    } else {
        "9"
    }
}

/// `n` in decimal.
fn dec_string(n: u128) -> (r: String)
    ensures
        r@ == spec_digits(n as int),
    decreases n,
{
    if n < 10 {
        String::from_str(digit_str(n as u8))
    } else {
        let mut s = dec_string(n / 10);
        s.append(digit_str((n % 10) as u8));
        s
    }
}

/// The position an error is reported at: its span's start, held inside
/// the source.
pub open spec fn spec_report_offset(span: Span, s: Seq<char>) -> int {
    if span.start <= s.len() {
        span.start as int
    } else {
        s.len() as int
    }
}

/// One rendered error: the message, the one-based line and column of the
/// span's start, the full source line it lies on, and a caret under the
/// offending position.
pub open spec fn spec_render_error(span: Span, msg: Seq<char>, s: Seq<char>) -> Seq<char> {
    let off = spec_report_offset(span, s);
    let ls = spec_line_start(s, off);
    let le = spec_line_end(s, off);
    "error: "@ + msg + " at "@ + spec_digits(spec_line_number(s, off) + 1) + ":"@ + spec_digits(
        off - ls + 1,
    ) + "\n  "@ + s.subrange(ls, le) + "\n  "@ + spec_spaces(off - ls) + "^\n"@
}

/// All rendered errors, in the order they were recorded.
pub open spec fn spec_render_errors(errs: Seq<SyntaxError>, s: Seq<char>) -> Seq<char>
    decreases errs.len(),
{
    if errs.len() == 0 {
        Seq::empty()
    } else {
        spec_render_error(errs[0].span, errs[0].message@, s) + spec_render_errors(
            errs.drop_first(),
            s,
        )
    }
}

fn line_end(source: &str, off: usize, n: usize) -> (r: usize)
    requires
        n == source@.len(),
        off <= n,
    ensures
        r == spec_line_end(source@, off as int),
        off <= r <= n,
{
    let mut j: usize = off;
    while j < n && source.get_char(j) != '\n'
        invariant
            n == source@.len(),
            off <= j <= n,
            spec_line_end(source@, off as int) == spec_line_end(source@, j as int),
        decreases n - j,
    {
        j = j + 1;
    }
    j
}

fn render_error(e: &SyntaxError, source: &str) -> (r: String)
    ensures
        r@ == spec_render_error(e.span, e.message@, source@),
{
    let n = source.unicode_len();
    let off = if e.span.start <= n {
        e.span.start
    } else {
        n
    };
    proof {
        lemma_line_start_bounds(source@, off as int);
        lemma_line_end_bounds(source@, off as int);
    }
    let (line, col) = line_col(source, off);
    let ls = off - col;
    let le = line_end(source, off, n);
    let mut out = String::from_str("error: ");
    out.append(e.message.as_str());
    out.append(" at ");
    let ln = dec_string(line as u128 + 1);
    out.append(ln.as_str());
    out.append(":");
    let cn = dec_string(col as u128 + 1);
    out.append(cn.as_str());
    out.append("\n  ");
    out.append(source.substring_char(ls, le));
    out.append("\n  ");
    let ghost head = out@;
    let mut k: usize = 0;
    while k < col
        invariant
            k <= col,
            out@ == head + spec_spaces(k as int),
        decreases col - k,
    {
        out.append(" ");
        proof {
            reveal_strlit(" ");
            assert(" "@ =~= seq![' ']);
            assert(spec_spaces(k as int + 1) =~= spec_spaces(k as int).push(' '));
            assert((head + spec_spaces(k as int)) + " "@ =~= head + spec_spaces(k as int + 1));
        }
        k = k + 1;
    }
    out.append("^\n");
    proof {
        assert((head + spec_spaces(col as int)) + "^\n"@ =~= spec_render_error(
            e.span,
            e.message@,
            source@,
        ));
    }
    out
}

impl ParserError {
    /// Renders every collected error against the source text, in order:
    /// one labeled excerpt per error, none dropped. The result is ready
    /// for a terminal or any other byte sink.
    pub fn render(&self, source: &str) -> (r: String)
        ensures
            r@ == spec_render_errors(self@, source@),
    {
        let n = self.errors.len();
        let mut out = String::new();
        let mut k: usize = 0;
        proof {
            assert(self@.subrange(0, n as int) =~= self@);
            assert(Seq::<char>::empty() + spec_render_errors(self@, source@)
                =~= spec_render_errors(self@, source@));
        }
        while k < n
            invariant
                n == self@.len(),
                k <= n,
                spec_render_errors(self@, source@) == out@ + spec_render_errors(
                    self@.subrange(k as int, n as int),
                    source@,
                ),
            decreases n - k,
        {
            let piece = render_error(&self.errors[k], source);
            let ghost prev = out@;
            out.append(piece.as_str());
            proof {
                let sub = self@.subrange(k as int, n as int);
                assert(sub[0] == self@[k as int]);
                assert(sub.drop_first() =~= self@.subrange(k as int + 1, n as int));
                assert(prev + (piece@ + spec_render_errors(
                    self@.subrange(k as int + 1, n as int),
                    source@,
                )) =~= (prev + piece@) + spec_render_errors(
                    self@.subrange(k as int + 1, n as int),
                    source@,
                ));
            }
            k = k + 1;
        }
        proof {
            assert(self@.subrange(n as int, n as int) =~= Seq::<SyntaxError>::empty());
            assert(out@ + Seq::<char>::empty() =~= out@);
        }
        out
    }
}

} // verus!
