//! The library's laws: properties that hold of every input, proved from
//! the engine's and codec's contracts.

use vstd::prelude::*;

use crate::codec::lemma_line_round_trip;
use crate::codec::spec_line;
use crate::digits::spec_dec;
use crate::display::pad2;
use crate::display::spec_mmss;
use crate::engine::elapsed_of;
use crate::engine::expired;
use crate::engine::fresh_record;
use crate::engine::get_post;
use crate::engine::reset_post;
use crate::engine::tick_post;
use crate::engine::GetOutcome;
use crate::record::TimerError;
use crate::record::TimerRecord;
use crate::record::DEFAULT_DURATION_SECONDS;
use crate::record::MAX_MINUTES;

verus! {

/// Whether two `get` results are the same answer: equal errors, or
/// outcomes of the same variant with equal records, texts and
/// notification decisions.
pub open spec fn same_get_result(
    r1: Result<GetOutcome, TimerError>,
    r2: Result<GetOutcome, TimerError>,
) -> bool {
    match (r1, r2) {
        (Ok(o1), Ok(o2)) => same_outcome(o1, o2),
        (Err(e1), Err(e2)) => e1 == e2,
        _ => false,
    }
}

/// Whether two `get` outcomes are the same decision.
pub open spec fn same_outcome(o1: GetOutcome, o2: GetOutcome) -> bool {
    match (o1, o2) {
        (GetOutcome::Running { text: t1 }, GetOutcome::Running { text: t2 }) => t1@ == t2@,
        (
            GetOutcome::Started { record: rec1, text: t1 },
            GetOutcome::Started { record: rec2, text: t2 },
        ) => rec1 == rec2 && t1@ == t2@,
        (
            GetOutcome::Restarted { record: rec1, text: t1, notify: n1 },
            GetOutcome::Restarted { record: rec2, text: t2, notify: n2 },
        ) => rec1 == rec2 && t1@ == t2@ && n1 == n2,
        _ => false,
    }
}

/// After a reset to `d` minutes, an immediate `get` on the stored record,
/// with the clock still at the reset time, shows the full interval: the
/// minutes written in decimal (zero-padded to two digits) and `00`
/// seconds.  The reset's own display is the same string.
pub proof fn law_reset_then_get(
    now: i64,
    d: i64,
    msg: Seq<char>,
    rr: Result<(TimerRecord, String), TimerError>,
    rg: Result<GetOutcome, TimerError>,
)
    requires
        0 <= now,
        1 <= d <= MAX_MINUTES,
        reset_post(now, Some(d), rr),
        rr matches Ok(p) && get_post(Some(spec_line(p.0)), now, msg, rg),
    ensures
        rg matches Ok(o) && (o matches GetOutcome::Running { text } && {
            &&& text@ == pad2(spec_dec(d as nat)) + seq![':'] + seq!['0', '0']
            &&& text@ == (match rr {
                Ok(p) => p.1@,
                Err(_) => Seq::<char>::empty(),
            })
        }),
{
    let p = rr->Ok_0;
    let rec = p.0;
    assert(rec == fresh_record(now, (d * 60) as i64));
    assert(rec.wf());
    lemma_line_round_trip(rec);
    assert(elapsed_of(rec, now) == 0);
    assert(!expired(rec, now));
    lemma_full_display(d);
}

/// The full-duration display of an interval of `d` minutes is the decimal
/// form of `d`, zero-padded to at least two digits, then `:00`.
proof fn lemma_full_display(d: i64)
    requires
        1 <= d <= MAX_MINUTES,
    ensures
        spec_mmss((d * 60) as nat) == pad2(spec_dec(d as nat)) + seq![':'] + seq!['0', '0'],
{
    let dur = (d * 60) as nat;
    assert(dur / 60 == d as nat && dur % 60 == 0) by (nonlinear_arith)
        requires
            1 <= d <= MAX_MINUTES,
            dur == (d * 60) as nat,
    ;
    assert(spec_dec(0) =~= seq!['0']);
    assert(pad2(seq!['0']) =~= seq!['0', '0']);
    assert(spec_mmss(dur) == pad2(spec_dec(d as nat)) + seq![':'] + pad2(spec_dec(0)));
    assert(pad2(spec_dec(d as nat)) + seq![':'] + pad2(spec_dec(0)) =~= pad2(spec_dec(d as nat))
        + seq![':'] + seq!['0', '0']);
}

/// `get` is deterministic: with the same contents, the same clock reading
/// and the same message, two calls give the same answer.
pub proof fn law_get_deterministic(
    contents: Option<Seq<char>>,
    now: i64,
    msg: Seq<char>,
    r1: Result<GetOutcome, TimerError>,
    r2: Result<GetOutcome, TimerError>,
)
    requires
        get_post(contents, now, msg, r1),
        get_post(contents, now, msg, r2),
    ensures
        same_get_result(r1, r2),
{
}

/// Monotonic countdown: `k` seconds into a fresh interval of `d` minutes
/// (with `k` short of expiry), `get` shows exactly `d * 60 - k` seconds
/// remaining.
pub proof fn law_countdown(t0: i64, d: i64, k: i64, msg: Seq<char>, o: GetOutcome)
    requires
        0 <= t0,
        1 <= d <= MAX_MINUTES,
        0 <= k < d * 60,
        t0 + k <= i64::MAX,
        tick_post(fresh_record(t0, (d * 60) as i64), (t0 + k) as i64, msg, o),
    ensures
        o matches GetOutcome::Running { text } && text@ == spec_mmss((d * 60 - k) as nat),
{
    let rec = fresh_record(t0, (d * 60) as i64);
    assert(elapsed_of(rec, (t0 + k) as i64) == k);
    assert(!expired(rec, (t0 + k) as i64));
}

/// Expiry restarts the interval with the duration that just expired — not
/// the default — and the new interval starts at the `get` call's own
/// clock reading.
pub proof fn law_expiry_keeps_duration(rec: TimerRecord, now: i64, msg: Seq<char>, o: GetOutcome)
    requires
        rec.wf(),
        0 <= now,
        expired(rec, now),
        tick_post(rec, now, msg, o),
    ensures
        o matches GetOutcome::Restarted { record, .. } && {
            &&& record.duration_seconds == rec.duration_seconds
            &&& record.started_at == now
        },
{
}

/// On expiry, the notification is requested exactly when the message is
/// non-empty; an empty message suppresses it.
pub proof fn law_expiry_notification(rec: TimerRecord, now: i64, msg: Seq<char>, o: GetOutcome)
    requires
        rec.wf(),
        0 <= now,
        expired(rec, now),
        tick_post(rec, now, msg, o),
    ensures
        o matches GetOutcome::Restarted { notify, .. } && (notify <==> msg.len() != 0),
{
}

/// With no stored record, `get` initializes a default twenty-minute
/// interval starting at the clock reading and displays `20:00`.
pub proof fn law_first_get_initializes(now: i64, msg: Seq<char>, r: Result<GetOutcome, TimerError>)
    requires
        0 <= now,
        get_post(None, now, msg, r),
    ensures
        r matches Ok(o) && (o matches GetOutcome::Started { record, text } && {
            &&& record == fresh_record(now, DEFAULT_DURATION_SECONDS)
            &&& text@ == seq!['2', '0', ':', '0', '0']
        }),
{
    lemma_full_display(20);
    assert(spec_dec(20nat) =~= spec_dec(2nat).push('0'));
    assert(spec_dec(2nat) =~= seq!['2']);
    assert(spec_dec(20nat) =~= seq!['2', '0']);
    assert(pad2(seq!['2', '0']) =~= seq!['2', '0']);
    assert(pad2(spec_dec(20nat)) + seq![':'] + seq!['0', '0'] =~= seq!['2', '0', ':', '0', '0']);
}

} // verus!
