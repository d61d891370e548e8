//! The line tokenizer.
//!
//! An input line is split into word tokens at space characters, except
//! inside a double-quote-delimited span.  Quote characters toggle the
//! "inside quotes" mode and are dropped from the emitted tokens; empty
//! segments between consecutive delimiters are discarded.  An odd number
//! of quote characters is permitted: the mode simply keeps toggling to
//! the end of the line, and no error is raised.

use vstd::prelude::*;
use vstd::string::*;

verus! {

/// One step per character: `i` is the cursor, `in_quotes` the quoting
/// mode, `cur` the token being accumulated, `acc` the tokens already
/// emitted.  At the end of the line a non-empty `cur` is emitted.
pub open spec fn tok_rec(
    s: Seq<char>,
    i: int,
    in_quotes: bool,
    cur: Seq<char>,
    acc: Seq<Seq<char>>,
) -> Seq<Seq<char>>
    decreases s.len() - i,
{
    if !(0 <= i < s.len()) {
        if cur.len() > 0 {
            acc.push(cur)
        } else {
            acc
        }
    } else if s[i] == '"' {
        tok_rec(s, i + 1, !in_quotes, cur, acc)
    } else if s[i] == ' ' && !in_quotes {
        tok_rec(
            s,
            i + 1,
            in_quotes,
            Seq::empty(),
            if cur.len() > 0 {
                acc.push(cur)
            } else {
                acc
            },
        )
    } else {
        tok_rec(s, i + 1, in_quotes, cur.push(s[i]), acc)
    }
}

/// The token sequence of a whole line.
pub open spec fn spec_tokenize(s: Seq<char>) -> Seq<Seq<char>> {
    tok_rec(s, 0, false, Seq::empty(), Seq::empty())
}

/// Splits a line into separate tokens according to the following rules:
/// - split at ' ' (space);
/// - inside a double-quoted span there is no split at a space;
/// - the quote characters themselves are dropped;
/// - empty segments are discarded.
pub fn split_line(line: &str) -> (r: Vec<String>)
    ensures
        r.deep_view() == spec_tokenize(line@),
{
    let n = line.unicode_len();
    let mut toks: Vec<String> = Vec::new();
    let mut cur = String::new();
    let mut in_quotes = false;
    let mut i: usize = 0;
    proof {
        assert(toks.deep_view() =~= Seq::<Seq<char>>::empty());
    }
    while i < n
        invariant
            n == line@.len(),
            i <= n,
            spec_tokenize(line@) == tok_rec(line@, i as int, in_quotes, cur@, toks.deep_view()),
        decreases n - i,
    {
        let ghost prev_toks = toks.deep_view();
        let ghost prev_cur = cur@;
        let c = line.get_char(i);
        if c == '"' {
            in_quotes = !in_quotes;
        } else if c == ' ' && !in_quotes {
            if !cur.as_str().is_empty() {
                toks.push(cur);
                proof {
                    assert(toks.deep_view() =~= prev_toks.push(prev_cur));
                }
            }
            cur = String::new();
        } else {
            let piece = line.substring_char(i, i + 1);
            cur.append(piece);
            proof {
                assert(cur@ =~= prev_cur.push(line@[i as int]));
            }
        }
        i += 1;
    }
    if !cur.as_str().is_empty() {
        let ghost prev_toks = toks.deep_view();
        let ghost prev_cur = cur@;
        toks.push(cur);
        proof {
            assert(toks.deep_view() =~= prev_toks.push(prev_cur));
        }
    }
    toks
}

/// One step per character of a plain space split with empty segments
/// discarded: the same walk as `tok_rec`, with no quoting rule.
pub open spec fn space_rec(s: Seq<char>, i: int, cur: Seq<char>, acc: Seq<Seq<char>>) -> Seq<
    Seq<char>,
>
    decreases s.len() - i,
{
    if !(0 <= i < s.len()) {
        if cur.len() > 0 {
            acc.push(cur)
        } else {
            acc
        }
    } else if s[i] == ' ' {
        space_rec(
            s,
            i + 1,
            Seq::empty(),
            if cur.len() > 0 {
                acc.push(cur)
            } else {
                acc
            },
        )
    } else {
        space_rec(s, i + 1, cur.push(s[i]), acc)
    }
}

/// The space-split, empty-removed token sequence of a line.
pub open spec fn spec_space_split(s: Seq<char>) -> Seq<Seq<char>> {
    space_rec(s, 0, Seq::empty(), Seq::empty())
}

proof fn lemma_tok_rec_no_quotes(s: Seq<char>, i: int, cur: Seq<char>, acc: Seq<Seq<char>>)
    requires
        forall|j: int| 0 <= j < s.len() ==> s[j] != '"',
    ensures
        tok_rec(s, i, false, cur, acc) == space_rec(s, i, cur, acc),
    decreases s.len() - i,
{
    if 0 <= i < s.len() {
        if s[i] == ' ' {
            lemma_tok_rec_no_quotes(
                s,
                i + 1,
                Seq::empty(),
                if cur.len() > 0 {
                    acc.push(cur)
                } else {
                    acc
                },
            );
        } else {
            lemma_tok_rec_no_quotes(s, i + 1, cur.push(s[i]), acc);
        }
    }
}

/// On a line without quote characters, the tokenizer yields exactly the
/// space-split sequence with empty segments removed.
pub proof fn lemma_tokenize_no_quotes(s: Seq<char>)
    requires
        forall|j: int| 0 <= j < s.len() ==> s[j] != '"',
    ensures
        spec_tokenize(s) == spec_space_split(s),
{
    lemma_tok_rec_no_quotes(s, 0, Seq::empty(), Seq::empty());
}

} // verus!
