//! Reading and writing the persisted record: one line holding the start
//! timestamp and the duration as two decimal numerals separated by one
//! space.

use vstd::prelude::*;

use crate::digits::dec_val;
use crate::digits::digit_val;
use crate::digits::is_digit_char;
use crate::digits::is_digit_seq;
use crate::digits::lemma_dec_val_push;
use crate::digits::lemma_dec_val_spec_dec;
use crate::digits::lemma_spec_dec_is_digit_seq;
use crate::digits::spec_dec;
use crate::record::TimerError;
use crate::record::TimerRecord;

verus! {

/// Whether index `i` splits `s` into two digit runs around a single space.
pub open spec fn is_line_split(s: Seq<char>, i: int) -> bool {
    &&& 0 <= i < s.len()
    &&& s[i] == ' '
    &&& is_digit_seq(s.subrange(0, i))
    &&& is_digit_seq(s.subrange(i + 1, s.len() as int))
}

/// Whether `s` has the shape `<digits> <digits>`.
pub open spec fn well_formed_line(s: Seq<char>) -> bool {
    exists|i: int| is_line_split(s, i)
}

/// The index of the separating space of a well-formed line.
pub open spec fn line_split(s: Seq<char>) -> int {
    choose|i: int| is_line_split(s, i)
}

/// The value of the first numeral of a well-formed line.
pub open spec fn line_start(s: Seq<char>) -> nat {
    dec_val(s.subrange(0, line_split(s)))
}

/// The value of the second numeral of a well-formed line.
pub open spec fn line_duration(s: Seq<char>) -> nat {
    dec_val(s.subrange(line_split(s) + 1, s.len() as int))
}

/// Whether `s` denotes a record: well shaped, both values fit in `i64`,
/// and the duration is at least one second.
pub open spec fn parseable(s: Seq<char>) -> bool {
    &&& well_formed_line(s)
    &&& line_start(s) <= i64::MAX
    &&& 1 <= line_duration(s) <= i64::MAX
}

/// The record a parseable line denotes.
pub open spec fn rec_of_line(s: Seq<char>) -> TimerRecord {
    TimerRecord { started_at: line_start(s) as i64, duration_seconds: line_duration(s) as i64 }
}

/// The canonical line for a record.
pub open spec fn spec_line(rec: TimerRecord) -> Seq<char> {
    spec_dec(rec.started_at as nat) + seq![' '] + spec_dec(rec.duration_seconds as nat)
}

/// A line has at most one splitting space: everything left of a split is a
/// digit, and the split position itself is not.
pub proof fn lemma_line_split_unique(s: Seq<char>, i: int, j: int)
    requires
        is_line_split(s, i),
        is_line_split(s, j),
    ensures
        i == j,
{
    if i < j {
        assert(is_digit_char(s.subrange(0, j)[i]));
        assert(s.subrange(0, j)[i] == ' ');
    }
    if j < i {
        assert(is_digit_char(s.subrange(0, i)[j]));
        assert(s.subrange(0, i)[j] == ' ');
    }
}

/// If the digits of `s` run exactly from the start to `end`, a split can
/// only sit at `end`.
proof fn lemma_split_at_scan_end(s: Seq<char>, end: int)
    requires
        0 <= end <= s.len(),
        forall|j: int| 0 <= j < end ==> is_digit_char(#[trigger] s[j]),
        end < s.len() ==> !is_digit_char(s[end]),
    ensures
        forall|i: int| is_line_split(s, i) ==> i == end,
{
    assert forall|i: int| is_line_split(s, i) implies i == end by {
        if i < end {
            assert(is_digit_char(s[i]));
        }
        if end < i {
            assert(is_digit_char(s.subrange(0, i)[end]));
        }
    }
}

/// Scans the digit run of `s` that starts at `start`: returns the index of
/// the first non-digit at or after `start`, the run's value, and whether
/// that value exceeds `i64::MAX`.
fn scan_number(s: &str, len: usize, start: usize) -> (res: (usize, i64, bool))
    requires
        len == s@.len(),
        start <= len,
    ensures
        start <= res.0 <= len,
        forall|j: int| start <= j < res.0 ==> is_digit_char(#[trigger] s@[j]),
        res.0 < len ==> !is_digit_char(s@[res.0 as int]),
        !res.2 ==> 0 <= res.1 && res.1 == dec_val(s@.subrange(start as int, res.0 as int)),
        res.2 ==> dec_val(s@.subrange(start as int, res.0 as int)) > i64::MAX,
{
    let mut i: usize = start;
    let mut value: i64 = 0;
    let mut over: bool = false;
    proof {
        assert(s@.subrange(start as int, start as int) =~= Seq::<char>::empty());
    }
    loop
        invariant
            len == s@.len(),
            start <= i <= len,
            forall|j: int| start <= j < i ==> is_digit_char(#[trigger] s@[j]),
            !over ==> 0 <= value && value == dec_val(s@.subrange(start as int, i as int)),
            over ==> dec_val(s@.subrange(start as int, i as int)) > i64::MAX,
        ensures
            start <= i <= len,
            i < len ==> !is_digit_char(s@[i as int]),
            forall|j: int| start <= j < i ==> is_digit_char(#[trigger] s@[j]),
            !over ==> 0 <= value && value == dec_val(s@.subrange(start as int, i as int)),
            over ==> dec_val(s@.subrange(start as int, i as int)) > i64::MAX,
        decreases len - i,
    {
        if i >= len {
            break ;
        }
        let c = s.get_char(i);
        let u = c as u32;
        if u < 48 || u > 57 {
            break ;
        }
        let d = (u - 48) as i64;
        proof {
            assert(s@.subrange(start as int, i + 1) =~= s@.subrange(start as int, i as int).push(
                s@[i as int],
            ));
            lemma_dec_val_push(s@.subrange(start as int, i as int), s@[i as int]);
            assert(digit_val(s@[i as int]) == d);
        }
        if !over {
            if value > (i64::MAX - d) / 10 {
                proof {
                    let q = (i64::MAX - d) / 10 as int;
                    vstd::arithmetic::div_mod::lemma_fundamental_div_mod(i64::MAX - d, 10);
                    vstd::arithmetic::mul::lemma_mul_inequality(q + 1, value as int, 10);
                }
                over = true;
            } else {
                proof {
                    let q = (i64::MAX - d) / 10 as int;
                    vstd::arithmetic::div_mod::lemma_fundamental_div_mod(i64::MAX - d, 10);
                    vstd::arithmetic::mul::lemma_mul_inequality(value as int, q, 10);
                }
                value = value * 10 + d;
            }
        } else {
            proof {
                let prev = dec_val(s@.subrange(start as int, i as int));
                vstd::arithmetic::mul::lemma_mul_inequality(1, prev as int, 10);
            }
        }
        i = i + 1;
    }
    (i, value, over)
}

/// Parses a state line.  Succeeds exactly on parseable lines and returns
/// the record they denote; anything else is a `ParseError`.
pub fn parse_record(s: &str) -> (r: Result<TimerRecord, TimerError>)
    ensures
        parseable(s@) ==> r == Ok::<TimerRecord, TimerError>(rec_of_line(s@)),
        !parseable(s@) ==> r == Err::<TimerRecord, TimerError>(TimerError::ParseError),
{
    let len = s.unicode_len();
    let (end1, v1, over1) = scan_number(s, len, 0);
    if end1 >= len {
        proof {
            lemma_split_at_scan_end(s@, end1 as int);
        }
        return Err(TimerError::ParseError);
    }
    let c = s.get_char(end1);
    proof {
        lemma_split_at_scan_end(s@, end1 as int);
    }
    if c != ' ' {
        return Err(TimerError::ParseError);
    }
    if end1 == 0 {
        proof {
            assert forall|i: int| !is_line_split(s@, i) by {
                if is_line_split(s@, i) {
                    assert(i == 0);
                    assert(is_digit_seq(s@.subrange(0, 0)));
                    assert(s@.subrange(0, 0).len() == 0);
                }
            }
        }
        return Err(TimerError::ParseError);
    }
    let (end2, v2, over2) = scan_number(s, len, end1 + 1);
    let ghost tail = s@.subrange(end1 + 1, s@.len() as int);
    if end2 == end1 + 1 {
        proof {
            assert forall|i: int| !is_line_split(s@, i) by {
                if is_line_split(s@, i) {
                    assert(i == end1);
                    assert(is_digit_seq(tail));
                    assert(tail.len() > 0);
                    assert(is_digit_char(tail[0]));
                    assert(tail[0] == s@[end1 + 1]);
                }
            }
        }
        return Err(TimerError::ParseError);
    }
    if end2 < len {
        proof {
            assert forall|i: int| !is_line_split(s@, i) by {
                if is_line_split(s@, i) {
                    assert(i == end1);
                    assert(is_digit_seq(tail));
                    assert(is_digit_char(tail[end2 - end1 - 1]));
                    assert(tail[end2 - end1 - 1] == s@[end2 as int]);
                }
            }
        }
        return Err(TimerError::ParseError);
    }
    proof {
        assert(is_digit_seq(s@.subrange(0, end1 as int)));
        assert(tail =~= s@.subrange(end1 + 1, end2 as int));
        assert(is_digit_seq(tail));
        assert(is_line_split(s@, end1 as int));
        lemma_line_split_unique(s@, line_split(s@), end1 as int);
        assert(line_split(s@) == end1 as int);
    }
    if over1 || over2 {
        return Err(TimerError::ParseError);
    }
    if v2 < 1 {
        return Err(TimerError::ParseError);
    }
    Ok(TimerRecord { started_at: v1, duration_seconds: v2 })
}

/// Serializes a record as its canonical line.  The line is parseable and
/// parses back to the same record.
pub fn serialize_record(rec: &TimerRecord) -> (s: String)
    requires
        rec.wf(),
    ensures
        s@ == spec_line(*rec),
        parseable(s@),
        rec_of_line(s@) == *rec,
{
    proof {
        reveal_strlit(" ");
        lemma_line_round_trip(*rec);
    }
    let mut s = crate::display::fmt_dec(rec.started_at);
    s.append(" ");
    let tail = crate::display::fmt_dec(rec.duration_seconds);
    s.append(tail.as_str());
    proof {
        assert(s@ =~= spec_line(*rec));
    }
    s
}

/// The canonical line of a well-formed record is parseable and denotes
/// that record.
pub proof fn lemma_line_round_trip(rec: TimerRecord)
    requires
        rec.wf(),
    ensures
        parseable(spec_line(rec)),
        rec_of_line(spec_line(rec)) == rec,
{
    let a = spec_dec(rec.started_at as nat);
    let b = spec_dec(rec.duration_seconds as nat);
    let s = spec_line(rec);
    lemma_spec_dec_is_digit_seq(rec.started_at as nat);
    lemma_spec_dec_is_digit_seq(rec.duration_seconds as nat);
    lemma_dec_val_spec_dec(rec.started_at as nat);
    lemma_dec_val_spec_dec(rec.duration_seconds as nat);
    assert(s.subrange(0, a.len() as int) =~= a);
    assert(s.subrange(a.len() as int + 1, s.len() as int) =~= b);
    assert(s[a.len() as int] == ' ');
    assert(is_line_split(s, a.len() as int));
    lemma_line_split_unique(s, line_split(s), a.len() as int);
}

} // verus!
