//! Line completeness for an interactive editor: a line whose trimmed end
//! is a `|` or a `,` is awaiting more input.

use vstd::prelude::*;

use crate::lexer::is_whitespace_char;

verus! {

/// Whether a line of input is finished or awaiting continuation.
#[derive(Clone, Copy, Debug, PartialEq, Eq, Structural)]
pub enum ValidationStatus {
    Complete,
    Incomplete,
}

/// A line is incomplete when its last character, trailing whitespace
/// ignored, is a pipe or a comma. Whitespace here is the tokenizer's
/// set: space, tab, form feed, newline.
pub open spec fn spec_incomplete(s: Seq<char>) -> bool
    decreases s.len(),
{
    if s.len() == 0 {
        false
    } else if is_whitespace_char(s.last()) {
        spec_incomplete(s.drop_last())
    } else {
        s.last() == '|' || s.last() == ','
    }
}

/// Decides whether a line of query input is complete.
pub struct QueryValidator;

impl QueryValidator {
    pub fn validate(&self, line: &str) -> (r: ValidationStatus)
        ensures
            r == ValidationStatus::Incomplete <==> spec_incomplete(line@),
    {
        let n = line.unicode_len();
        let mut k: usize = n;
        proof {
            assert(line@.subrange(0, n as int) =~= line@);
        }
        while k > 0
            invariant
                n == line@.len(),
                k <= n,
                spec_incomplete(line@) == spec_incomplete(line@.subrange(0, k as int)),
            decreases k,
        {
            let c = line.get_char(k - 1);
            proof {
                assert(line@.subrange(0, k as int).last() == line@[k as int - 1]);
                assert(line@.subrange(0, k as int).drop_last() =~= line@.subrange(
                    0,
                    k as int - 1,
                ));
            }
            if c == ' ' || c == '\t' || c == '\u{c}' || c == '\n' {
                k = k - 1;
            } else if c == '|' || c == ',' {
                return ValidationStatus::Incomplete;
            } else {
                return ValidationStatus::Complete;
            }
        }
        ValidationStatus::Complete
    }
}

} // verus!
