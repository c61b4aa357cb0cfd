//! Syntax highlighting: source text cut into styled segments, straight
//! from the tokenizer and independent of the parser.

use vstd::prelude::*;

use crate::lexer::{
    is_whitespace_char, spec_tokens, token_seq_models, tokenizer, Token, TokenModel,
};

verus! {

/// The style class of one highlighted segment. How each class is drawn
/// (colors, weight) is the terminal front end's concern.
#[derive(Clone, Copy, Debug, PartialEq, Eq, Structural)]
pub enum HighlightStyle {
    /// A command keyword.
    Keyword,
    /// An operator, the assignment sign, or the pipe.
    Operator,
    /// A string literal.
    StringLiteral,
    /// An integer literal.
    Integer,
    /// Any other token: identifiers, parentheses, commas, `by`, errors.
    Plain,
    /// The whitespace between tokens.
    Unstyled,
}

/// The style class of one token.
pub open spec fn style_of(t: TokenModel) -> HighlightStyle {
    match t {
        TokenModel::KeywordSource => HighlightStyle::Keyword,
        TokenModel::KeywordWhere => HighlightStyle::Keyword,
        TokenModel::KeywordSort => HighlightStyle::Keyword,
        TokenModel::KeywordLimit => HighlightStyle::Keyword,
        TokenModel::KeywordAggregate => HighlightStyle::Keyword,
        TokenModel::Pipe => HighlightStyle::Operator,
        TokenModel::OperatorAdd => HighlightStyle::Operator,
        TokenModel::OperatorSubtract => HighlightStyle::Operator,
        TokenModel::OperatorMultiply => HighlightStyle::Operator,
        TokenModel::OperatorDivide => HighlightStyle::Operator,
        TokenModel::OperatorEqual => HighlightStyle::Operator,
        TokenModel::OperatorNotEqual => HighlightStyle::Operator,
        TokenModel::OperatorGreaterThan => HighlightStyle::Operator,
        TokenModel::OperatorGreaterThanOrEqual => HighlightStyle::Operator,
        TokenModel::OperatorLessThan => HighlightStyle::Operator,
        TokenModel::OperatorLessThanOrEqual => HighlightStyle::Operator,
        TokenModel::OperatorAnd => HighlightStyle::Operator,
        TokenModel::OperatorOr => HighlightStyle::Operator,
        TokenModel::OperatorAssign => HighlightStyle::Operator,
        TokenModel::StringLiteral(_) => HighlightStyle::StringLiteral,
        TokenModel::Integer(_) => HighlightStyle::Integer,
        _ => HighlightStyle::Plain,
    }
}

/// The styled segments for the spans `m` inside `s`, starting at `last`:
/// an unstyled gap before each token where one is skipped, the token's
/// own text with its style, and the unstyled tail after the last token.
pub open spec fn spec_segments(
    s: Seq<char>,
    m: Seq<(TokenModel, int, int)>,
    last: int,
) -> Seq<(HighlightStyle, Seq<char>)>
    decreases m.len(),
{
    if m.len() == 0 {
        if last < s.len() {
            seq![(HighlightStyle::Unstyled, s.subrange(last, s.len() as int))]
        } else {
            Seq::empty()
        }
    } else {
        let (t, a, b) = m[0];
        let tok = seq![(style_of(t), s.subrange(a, b))];
        let rest = spec_segments(s, m.drop_first(), b);
        if last < a {
            seq![(HighlightStyle::Unstyled, s.subrange(last, a))] + tok + rest
        } else {
            tok + rest
        }
    }
}

/// The styled segmentation of a whole line.
pub open spec fn spec_highlight(s: Seq<char>) -> Seq<(HighlightStyle, Seq<char>)> {
    spec_segments(s, spec_tokens(s), 0)
}

/// The models of the produced segments.
pub open spec fn segments_models(v: Seq<(HighlightStyle, String)>) -> Seq<
    (HighlightStyle, Seq<char>),
> {
    v.map_values(|p: (HighlightStyle, String)| (p.0, p.1@))
}

fn style_of_exec(tok: &Token) -> (r: HighlightStyle)
    ensures
        r == style_of(tok@),
{
    match tok {
        Token::KeywordSource => HighlightStyle::Keyword,
        Token::KeywordWhere => HighlightStyle::Keyword,
        Token::KeywordSort => HighlightStyle::Keyword,
        Token::KeywordLimit => HighlightStyle::Keyword,
        Token::KeywordAggregate => HighlightStyle::Keyword,
        Token::Pipe => HighlightStyle::Operator,
        Token::OperatorAdd => HighlightStyle::Operator,
        Token::OperatorSubtract => HighlightStyle::Operator,
        Token::OperatorMultiply => HighlightStyle::Operator,
        Token::OperatorDivide => HighlightStyle::Operator,
        Token::OperatorEqual => HighlightStyle::Operator,
        Token::OperatorNotEqual => HighlightStyle::Operator,
        Token::OperatorGreaterThan => HighlightStyle::Operator,
        Token::OperatorGreaterThanOrEqual => HighlightStyle::Operator,
        Token::OperatorLessThan => HighlightStyle::Operator,
        Token::OperatorLessThanOrEqual => HighlightStyle::Operator,
        Token::OperatorAnd => HighlightStyle::Operator,
        Token::OperatorOr => HighlightStyle::Operator,
        Token::OperatorAssign => HighlightStyle::Operator,
        Token::StringLiteral(_) => HighlightStyle::StringLiteral,
        Token::Integer(_) => HighlightStyle::Integer,
        _ => HighlightStyle::Plain,
    }
}

/// Cuts query text into styled segments for display.
pub struct QueryHighlighter;

impl QueryHighlighter {
    /// The styled segments of `line`, in order: concatenating their
    /// texts gives `line` back, whitespace in unstyled segments.
    pub fn highlight(&self, line: &str) -> (r: Vec<(HighlightStyle, String)>)
        ensures
            segments_models(r@) == spec_highlight(line@),
    {
        let toks = tokenizer(line);
        proof {
            crate::lexer::lemma_tokens_round_trip(line@);
        }
        let ghost mm = spec_tokens(line@);
        let n = line.unicode_len();
        let mut out: Vec<(HighlightStyle, String)> = Vec::new();
        let mut last: usize = 0;
        let mut k: usize = 0;
        let nt = toks.len();
        proof {
            assert(mm.subrange(0, nt as int) =~= mm);
            assert(segments_models(out@) =~= Seq::<(HighlightStyle, Seq<char>)>::empty());
            assert(Seq::<(HighlightStyle, Seq<char>)>::empty() + spec_segments(
                line@,
                mm,
                0,
            ) =~= spec_segments(line@, mm, 0));
        }
        while k < nt
            invariant
                nt == toks@.len(),
                n == line@.len(),
                k <= nt,
                last <= n,
                mm == spec_tokens(line@),
                crate::lexer::tokens_match(toks@, mm),
                crate::lexer::spans_tile(line@, mm.subrange(k as int, nt as int), last as int),
                spec_highlight(line@) == segments_models(out@) + spec_segments(
                    line@,
                    mm.subrange(k as int, nt as int),
                    last as int,
                ),
            decreases nt - k,
        {
            let ghost sub = mm.subrange(k as int, nt as int);
            proof {
                assert(sub[0] == mm[k as int]);
                assert(token_seq_models(toks@)[k as int] == mm[k as int]);
                assert(sub.drop_first() =~= mm.subrange(k as int + 1, nt as int));
            }
            let start = toks[k].1.start();
            let end = toks[k].1.end();
            let style = style_of_exec(&toks[k].0);
            let ghost gap = (HighlightStyle::Unstyled, line@.subrange(last as int, start as int));
            let ghost tokseg = (style_of(mm[k as int].0), line@.subrange(start as int, end as int));
            let ghost prev = segments_models(out@);
            if start > last {
                out.push((HighlightStyle::Unstyled, String::from_str(line.substring_char(last, start))));
            }
            out.push((style, String::from_str(line.substring_char(start, end))));
            proof {
                let rest = spec_segments(line@, mm.subrange(k as int + 1, nt as int), end as int);
                if start > last {
                    assert(segments_models(out@) =~= prev + seq![gap] + seq![tokseg]);
                    assert(prev + (seq![gap] + seq![tokseg] + rest) =~= (prev + seq![gap] + seq![
                        tokseg,
                    ]) + rest);
                } else {
                    assert(segments_models(out@) =~= prev + seq![tokseg]);
                    assert(prev + (seq![tokseg] + rest) =~= (prev + seq![tokseg]) + rest);
                }
            }
            last = end;
            k = k + 1;
        }
        proof {
            assert(mm.subrange(nt as int, nt as int) =~= Seq::<(TokenModel, int, int)>::empty());
        }
        if last < n {
            let ghost prev = segments_models(out@);
            let ghost tail = (HighlightStyle::Unstyled, line@.subrange(last as int, n as int));
            out.push((HighlightStyle::Unstyled, String::from_str(line.substring_char(last, n))));
            proof {
                assert(segments_models(out@) =~= prev + seq![tail]);
            }
        } else {
            proof {
                assert(segments_models(out@) + Seq::<(HighlightStyle, Seq<char>)>::empty()
                    =~= segments_models(out@));
            }
        }
        out
    }
}

} // verus!

verus! {

/// The concatenation of segment texts.
pub open spec fn segments_concat(v: Seq<(HighlightStyle, Seq<char>)>) -> Seq<char>
    decreases v.len(),
{
    if v.len() == 0 {
        Seq::empty()
    } else {
        v[0].1 + segments_concat(v.drop_first())
    }
}

proof fn lemma_segments_concat_tiled(
    s: Seq<char>,
    m: Seq<(TokenModel, int, int)>,
    last: int,
)
    requires
        0 <= last <= s.len(),
        crate::lexer::spans_tile(s, m, last),
    ensures
        segments_concat(spec_segments(s, m, last)) == s.subrange(last, s.len() as int),
    decreases m.len(),
{
    assert(segments_concat(Seq::<(HighlightStyle, Seq<char>)>::empty()) =~= Seq::<
        char,
    >::empty());
    if m.len() == 0 {
        if last < s.len() {
            let seg = (HighlightStyle::Unstyled, s.subrange(last, s.len() as int));
            assert(seq![seg].drop_first() =~= Seq::<(HighlightStyle, Seq<char>)>::empty());
            assert(segments_concat(seq![seg]) =~= seg.1);
        } else {
            assert(s.subrange(last, s.len() as int) =~= Seq::<char>::empty());
        }
    } else {
        let (t, a, b) = m[0];
        lemma_segments_concat_tiled(s, m.drop_first(), b);
        let tok = seq![(style_of(t), s.subrange(a, b))];
        let rest = spec_segments(s, m.drop_first(), b);
        assert(segments_concat(tok + rest) == s.subrange(a, s.len() as int)) by {
            assert((tok + rest)[0] == tok[0]);
            assert((tok + rest).drop_first() =~= rest);
            assert(s.subrange(a, b) + s.subrange(b, s.len() as int) =~= s.subrange(
                a,
                s.len() as int,
            ));
        }
        if last < a {
            let gap = seq![(HighlightStyle::Unstyled, s.subrange(last, a))];
            assert(segments_concat(gap + tok + rest) == s.subrange(last, s.len() as int)) by {
                assert((gap + tok + rest)[0] == gap[0]);
                assert((gap + tok + rest).drop_first() =~= tok + rest);
                assert(s.subrange(last, a) + s.subrange(a, s.len() as int) =~= s.subrange(
                    last,
                    s.len() as int,
                ));
            }
        }
    }
}

/// Highlighting loses and duplicates nothing: concatenating the texts of
/// the segments of a line gives back the line itself.
pub proof fn lemma_highlight_covers(s: Seq<char>)
    ensures
        segments_concat(spec_highlight(s)) == s,
{
    crate::lexer::lemma_tokens_round_trip(s);
    lemma_segments_concat_tiled(s, spec_tokens(s), 0);
    assert(s.subrange(0, s.len() as int) =~= s);
}

} // verus!
