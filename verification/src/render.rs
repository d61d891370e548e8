//! Plain-text building blocks for human display: indents, dot padding
//! and decimal numbers.

use vstd::prelude::*;
use vstd::string::*;

verus! {

/// The indent marker, repeated once per tree depth.
pub open spec fn spec_indent(depth: nat) -> Seq<char>
    decreases depth,
{
    if depth == 0 {
        Seq::empty()
    } else {
        spec_indent((depth - 1) as nat) + "|  "@
    }
}

/// `n` dots.
pub open spec fn dots(n: nat) -> Seq<char>
    decreases n,
{
    if n == 0 {
        Seq::empty()
    } else {
        dots((n - 1) as nat).push('.')
    }
}

/// `s` left-padded with dots to the display column width of 35.
pub open spec fn pad_dots(s: Seq<char>) -> Seq<char> {
    if s.len() >= 35 {
        s
    } else {
        s + dots((35 - s.len()) as nat)
    }
}

/// The indent marker repeated `depth` times.
pub fn make_indent(depth: usize) -> (r: String)
    ensures
        r@ == spec_indent(depth as nat),
{
    let mut out = String::new();
    let mut i: usize = 0;
    while i < depth
        invariant
            i <= depth,
            out@ == spec_indent(i as nat),
        decreases depth - i,
    {
        out.append("|  ");
        i += 1;
    }
    out
}

/// Pad a string with dots up to the display column width.
pub fn pad_to_width(s: String) -> (r: String)
    ensures
        r@ == pad_dots(s@),
{
    let ghost start = s@;
    let mut out = s;
    let mut len = out.as_str().unicode_len();
    proof {
        assert(out@ =~= start + dots(0));
    }
    while len < 35
        invariant
            len == out@.len(),
            len >= start.len(),
            len <= 35 || len == start.len(),
            out@ == start + dots((len - start.len()) as nat),
        decreases 35 - len,
    {
        out.append(".");
        len += 1;
        proof {
            reveal_strlit(".");
            assert("."@ =~= seq!['.']);
            assert(out@ =~= start + dots((len - start.len()) as nat));
        }
    }
    proof {
        if start.len() >= 35 {
            assert(out@ =~= start);
        }
    }
    out
}

/// The digit character for a value below ten.
pub open spec fn digit_char(d: nat) -> char
    recommends
        d < 10,
{
    if d == 0 {
        '0'
    } else if d == 1 {
        '1'
    } else if d == 2 {
        '2'
    } else if d == 3 {
        '3'
    } else if d == 4 {
        '4'
    } else if d == 5 {
        '5'
    } else if d == 6 {
        '6'
    } else if d == 7 {
        '7'
    } else if d == 8 {
        '8'
    } else {
        '9'
    }
}

/// The decimal digits of `n`, most significant first.
pub open spec fn spec_digits(n: nat) -> Seq<char>
    decreases n,
{
    if n < 10 {
        seq![digit_char(n)]
    } else {
        spec_digits(n / 10).push(digit_char(n % 10))
    }
}

fn append_digit(s: &mut String, d: usize)
    requires
        d < 10,
    ensures
        final(s)@ == old(s)@.push(digit_char(d as nat)),
{
    if d == 0 {
        s.append("0");
        proof {
            reveal_strlit("0");
            assert(s@ =~= old(s)@.push('0'));
        }
    } else if d == 1 {
        s.append("1");
        proof {
            reveal_strlit("1");
            assert(s@ =~= old(s)@.push('1'));
        }
    } else if d == 2 {
        s.append("2");
        proof {
            reveal_strlit("2");
            assert(s@ =~= old(s)@.push('2'));
        }
    } else if d == 3 {
        s.append("3");
        proof {
            reveal_strlit("3");
            assert(s@ =~= old(s)@.push('3'));
        }
    } else if d == 4 {
        s.append("4");
        proof {
            reveal_strlit("4");
            assert(s@ =~= old(s)@.push('4'));
        }
    } else if d == 5 {
        s.append("5");
        proof {
            reveal_strlit("5");
            assert(s@ =~= old(s)@.push('5'));
        }
    } else if d == 6 {
        s.append("6");
        proof {
            reveal_strlit("6");
            assert(s@ =~= old(s)@.push('6'));
        }
    } else if d == 7 {
        s.append("7");
        proof {
            reveal_strlit("7");
            assert(s@ =~= old(s)@.push('7'));
        }
    } else if d == 8 {
        s.append("8");
        proof {
            reveal_strlit("8");
            assert(s@ =~= old(s)@.push('8'));
        }
    } else {
        s.append("9");
        proof {
            reveal_strlit("9");
            assert(s@ =~= old(s)@.push('9'));
        }
    }
}

fn push_digits(s: &mut String, n: usize)
    ensures
        final(s)@ == old(s)@ + spec_digits(n as nat),
    decreases n,
{
    if n < 10 {
        append_digit(s, n);
        proof {
            assert(s@ =~= old(s)@ + spec_digits(n as nat));
        }
    } else {
        push_digits(s, n / 10);
        append_digit(s, n % 10);
        proof {
            assert(s@ =~= old(s)@ + spec_digits(n as nat));
        }
    }
}

/// Render a number in decimal.
pub fn usize_to_string(n: usize) -> (r: String)
    ensures
        r@ == spec_digits(n as nat),
{
    let mut out = String::new();
    push_digits(&mut out, n);
    proof {
        assert(out@ =~= spec_digits(n as nat));
    }
    out
}

} // verus!
