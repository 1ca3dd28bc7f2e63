//! Rendering a number of remaining seconds as an `MM:SS` string.

use vstd::prelude::*;

use crate::digits::digit_char;
use crate::digits::lemma_spec_dec_len;
use crate::digits::spec_dec;

verus! {

/// `s` left-padded with zeros to at least two characters.
pub open spec fn pad2(s: Seq<char>) -> Seq<char> {
    if s.len() < 2 {
        seq!['0'] + s
    } else {
        s
    }
}

/// The display form of `remaining` seconds: whole minutes and leftover
/// seconds, each zero-padded to at least two digits, separated by a colon.
/// Minutes can exceed 59; there is no hour rollover.
pub open spec fn spec_mmss(remaining: nat) -> Seq<char> {
    pad2(spec_dec(remaining / 60)) + seq![':'] + pad2(spec_dec(remaining % 60))
}

/// The one-character string for a digit value.
fn digit_str(d: i64) -> (s: &'static str)
    requires
        0 <= d < 10,
    ensures
        s@ =~= seq![digit_char(d as nat)],
{
    proof {
        reveal_strlit("0");
        reveal_strlit("1");
        reveal_strlit("2");
        reveal_strlit("3");
        reveal_strlit("4");
        reveal_strlit("5");
        reveal_strlit("6");
        reveal_strlit("7");
        reveal_strlit("8");
        reveal_strlit("9");
    }
    if d == 0 {
        "0"
    } else if d == 1 {
        "1"
    } else if d == 2 {
        "2"
    } else if d == 3 {
        "3"
    } else if d == 4 {
        "4"
    } else if d == 5 {
        "5"
    } else if d == 6 {
        "6"
    } else if d == 7 {
        "7"
    } else if d == 8 {
        "8"
    } else {
        "9"
    }
}

/// `n` written in decimal, most significant digit first.
pub fn fmt_dec(n: i64) -> (s: String)
    requires
        0 <= n,
    ensures
        s@ == spec_dec(n as nat),
    decreases n,
{
    if n < 10 {
        String::from_str(digit_str(n))
    } else {
        let mut s = fmt_dec(n / 10);
        let last = digit_str(n % 10);
        s.append(last);
        proof {
            assert((n / 10) as nat == n as nat / 10);
            assert((n % 10) as nat == n as nat % 10);
            assert(spec_dec((n / 10) as nat).push(digit_char((n % 10) as nat)) =~= spec_dec(
                (n / 10) as nat,
            ) + seq![digit_char((n % 10) as nat)]);
        }
        s
    }
}

/// `remaining` seconds rendered as `MM:SS`.
pub fn format_mmss(remaining: i64) -> (s: String)
    requires
        0 <= remaining,
    ensures
        s@ == spec_mmss(remaining as nat),
{
    let mins = remaining / 60;
    let secs = remaining % 60;
    proof {
        reveal_strlit("0");
        reveal_strlit(":");
        assert(mins as nat == remaining as nat / 60);
        assert(secs as nat == remaining as nat % 60);
        lemma_spec_dec_len(mins as nat);
        lemma_spec_dec_len(secs as nat);
    }
    let mut s = fmt_dec(mins);
    if mins < 10 {
        let mut padded = String::from_str("0");
        padded.append(s.as_str());
        s = padded;
    }
    proof {
        assert(s@ =~= pad2(spec_dec(mins as nat)));
    }
    s.append(":");
    let mut tail = fmt_dec(secs);
    if secs < 10 {
        let mut padded = String::from_str("0");
        padded.append(tail.as_str());
        tail = padded;
    }
    proof {
        assert(tail@ =~= pad2(spec_dec(secs as nat)));
    }
    s.append(tail.as_str());
    proof {
        assert(s@ =~= spec_mmss(remaining as nat));
    }
    s
}

} // verus!
