//! The debounce engine: turns a bursty, unbounded stream of raw filesystem
//! change events into a rate-limited stream of coalesced signals.
//!
//! The policy is a fixed window ("first event schedules the next allowed
//! emission"): the first raw event of a burst is accepted and schedules one
//! signal a full quiet window after its arrival; every raw event observed no
//! more than one quiet window after the last accepted event is absorbed by
//! that already-pending or recent signal. The wait is not restarted on later
//! events, so sustained activity still produces signals, at most one per
//! window.
//!
//! Time is a plain monotone millisecond counter supplied by the caller, who
//! runs the blocking receive loop, performs the sleep of an `Emit` decision,
//! and delivers the signal.

use vstd::prelude::*;

verus! {

/// Minimum spacing enforced between two consecutive coalesced signals,
/// in milliseconds.
pub const QUIET_WINDOW_MS: u64 = 1000;

/// What the engine decides for one observed raw event.
pub enum Decision {
    /// Sleep until `emit_at` (one quiet window after the event), then emit
    /// exactly one coalesced signal.
    Emit { emit_at: u64 },
    /// The event is absorbed by an already-pending or recent signal.
    Absorb,
}

/// State of the debounce engine. Mutated only by the single watcher thread.
pub struct Debouncer {
    /// The quiet window, in the caller's time unit.
    pub window: u64,
    /// Whether any raw event has been accepted yet.
    pub has_accepted: bool,
    /// Observation time of the last accepted raw event; meaningful only when
    /// `has_accepted` holds.
    pub last_accept: u64,
}

/// A raw event observed at time `t` is accepted — schedules a signal —
/// exactly when the engine is fresh or more than one quiet window has passed
/// since the last accepted event.
pub open spec fn accepts(d: Debouncer, t: u64) -> bool {
    !d.has_accepted || t - d.last_accept > d.window
}

/// The engine state after observing one raw event at time `t`.
pub open spec fn stepped(d: Debouncer, t: u64) -> Debouncer {
    if accepts(d, t) {
        Debouncer { has_accepted: true, last_accept: t, ..d }
    } else {
        d
    }
}

/// The decision for one raw event observed at time `t`.
pub open spec fn decided(d: Debouncer, t: u64) -> Decision {
    if accepts(d, t) {
        Decision::Emit { emit_at: (t + d.window) as u64 }
    } else {
        Decision::Absorb
    }
}

impl Debouncer {
    /// A fresh engine: nothing accepted yet, so the first raw event is
    /// always accepted.
    pub fn new(window: u64) -> (d: Debouncer)
        ensures
            d == (Debouncer { window, has_accepted: false, last_accept: 0 }),
    {
        Debouncer { window, has_accepted: false, last_accept: 0 }
    }

    /// Observe one raw event at time `t` and decide its fate. Observation
    /// times are monotone: the engine only ever sees the clock move forward.
    pub fn observe(&mut self, t: u64) -> (r: Decision)
        requires
            old(self).has_accepted ==> old(self).last_accept <= t,
            t + old(self).window <= u64::MAX,
        ensures
            *final(self) == stepped(*old(self), t),
            r == decided(*old(self), t),
    {
        if !self.has_accepted || t - self.last_accept > self.window {
            self.has_accepted = true;
            self.last_accept = t;
            Decision::Emit { emit_at: t + self.window }
        } else {
            Decision::Absorb
        }
    }
}

/// How long the watcher thread still has to sleep before an emission due at
/// `emit_at`, read at clock value `now`: the remaining portion of the quiet
/// window, or nothing once the due time has passed.
pub fn remaining_wait(emit_at: u64, now: u64) -> (r: u64)
    ensures
        r == if emit_at > now {
            emit_at - now
        } else {
            0
        },
{
    if emit_at > now {
        emit_at - now
    } else {
        0
    }
}

/// The engine state after observing a whole sequence of raw events in order.
pub open spec fn run(d: Debouncer, ts: Seq<u64>) -> Debouncer
    decreases ts.len(),
{
    if ts.len() == 0 {
        d
    } else {
        run(stepped(d, ts[0]), ts.drop_first())
    }
}

/// The decisions taken for a whole sequence of raw events, in order.
pub open spec fn decisions(d: Debouncer, ts: Seq<u64>) -> Seq<Decision>
    decreases ts.len(),
{
    if ts.len() == 0 {
        Seq::empty()
    } else {
        seq![decided(d, ts[0])] + decisions(stepped(d, ts[0]), ts.drop_first())
    }
}

/// Observation times arrive in nondecreasing order.
pub open spec fn monotone(ts: Seq<u64>) -> bool {
    forall|i: int, j: int| 0 <= i <= j < ts.len() ==> ts[i] <= ts[j]
}

proof fn lemma_decisions_len(d: Debouncer, ts: Seq<u64>)
    ensures
        decisions(d, ts).len() == ts.len(),
    decreases ts.len(),
{
    if ts.len() > 0 {
        lemma_decisions_len(stepped(d, ts[0]), ts.drop_first());
    }
}

/// Every event of `ts` lies within one window of the accepted event the
/// engine last saw, so all of them are absorbed and the state never moves.
proof fn lemma_tail_absorbed(d: Debouncer, ts: Seq<u64>)
    requires
        d.has_accepted,
        monotone(ts),
        forall|i: int| 0 <= i < ts.len() ==> d.last_accept <= #[trigger] ts[i],
        forall|i: int| 0 <= i < ts.len() ==> #[trigger] ts[i] - d.last_accept <= d.window,
    ensures
        forall|i: int|
            0 <= i < ts.len() ==> #[trigger] decisions(d, ts)[i] == Decision::Absorb,
        run(d, ts) == d,
    decreases ts.len(),
{
    lemma_decisions_len(d, ts);
    if ts.len() > 0 {
        assert(!accepts(d, ts[0]));
        assert(stepped(d, ts[0]) == d);
        lemma_tail_absorbed(d, ts.drop_first());
        assert forall|i: int| 0 <= i < ts.len() implies #[trigger] decisions(d, ts)[i]
            == Decision::Absorb by {
            if i > 0 {
                assert(decisions(d, ts)[i] == decisions(d, ts.drop_first())[i - 1]);
            }
        }
    }
}

proof fn lemma_run_append(d: Debouncer, a: Seq<u64>, b: Seq<u64>)
    ensures
        run(d, a + b) == run(run(d, a), b),
    decreases a.len(),
{
    if a.len() == 0 {
        assert(a + b =~= b);
    } else {
        assert((a + b)[0] == a[0]);
        assert((a + b).drop_first() =~= a.drop_first() + b);
        lemma_run_append(stepped(d, a[0]), a.drop_first(), b);
    }
}

proof fn lemma_run_take_succ(d: Debouncer, ts: Seq<u64>, k: int)
    requires
        0 <= k < ts.len(),
    ensures
        run(d, ts.take(k + 1)) == stepped(run(d, ts.take(k)), ts[k]),
{
    assert(ts.take(k + 1) =~= ts.take(k) + seq![ts[k]]);
    lemma_run_append(d, ts.take(k), seq![ts[k]]);
    let d1 = run(d, ts.take(k));
    let s = seq![ts[k]];
    assert(s.drop_first() =~= Seq::<u64>::empty());
    assert(run(d1, s) == run(stepped(d1, ts[k]), s.drop_first()));
    assert(run(stepped(d1, ts[k]), s.drop_first()) == stepped(d1, ts[k]));
}

proof fn lemma_decisions_index(d: Debouncer, ts: Seq<u64>, k: int)
    requires
        0 <= k < ts.len(),
    ensures
        decisions(d, ts).len() == ts.len(),
        decisions(d, ts)[k] == decided(run(d, ts.take(k)), ts[k]),
    decreases k,
{
    lemma_decisions_len(d, ts);
    if k == 0 {
        assert(ts.take(0) =~= Seq::<u64>::empty());
    } else {
        let d1 = stepped(d, ts[0]);
        let rest = ts.drop_first();
        lemma_decisions_index(d1, rest, k - 1);
        assert(decisions(d, ts)[k] == decisions(d1, rest)[k - 1]);
        assert(ts.take(k) =~= seq![ts[0]] + rest.take(k - 1));
        assert((seq![ts[0]] + rest.take(k - 1)).drop_first() =~= rest.take(k - 1));
        assert(run(d, ts.take(k)) == run(d1, rest.take(k - 1)));
        assert(rest[k - 1] == ts[k]);
    }
}

proof fn lemma_run_window(d: Debouncer, ts: Seq<u64>)
    ensures
        run(d, ts).window == d.window,
    decreases ts.len(),
{
    if ts.len() > 0 {
        lemma_run_window(stepped(d, ts[0]), ts.drop_first());
    }
}

/// Once an event at or above `x` has been accepted, the engine's record of
/// the last accepted event never falls below `x` again, whatever events at
/// or above `x` still arrive.
proof fn lemma_accept_floor(d: Debouncer, ts: Seq<u64>, x: u64)
    requires
        d.has_accepted,
        d.last_accept >= x,
        forall|k: int| 0 <= k < ts.len() ==> #[trigger] ts[k] >= x,
    ensures
        run(d, ts).has_accepted,
        run(d, ts).last_accept >= x,
    decreases ts.len(),
{
    if ts.len() > 0 {
        lemma_accept_floor(stepped(d, ts[0]), ts.drop_first(), x);
    }
}

/// Law: no two coalesced signals are closer together than the quiet window.
/// In any monotone run, the events behind two distinct emissions lie more
/// than one window apart — and therefore so do the emission times, one
/// window after their triggers.
pub proof fn lemma_signals_respect_quiet_window(d: Debouncer, ts: Seq<u64>, i: int, j: int)
    requires
        monotone(ts),
        0 <= i < j < ts.len(),
        decisions(d, ts)[i] is Emit,
        decisions(d, ts)[j] is Emit,
    ensures
        ts[j] - ts[i] > d.window,
        (ts[i] + d.window) + d.window < ts[j] + d.window,
{
    lemma_decisions_index(d, ts, i);
    lemma_decisions_index(d, ts, j);
    let di = run(d, ts.take(i));
    let dj = run(d, ts.take(j));
    assert(accepts(di, ts[i]));
    assert(accepts(dj, ts[j]));
    lemma_run_take_succ(d, ts, i);
    let di1 = stepped(di, ts[i]);
    assert(di1.has_accepted && di1.last_accept == ts[i]);
    assert(ts.take(j) =~= ts.take(i + 1) + ts.take(j).skip(i + 1));
    lemma_run_append(d, ts.take(i + 1), ts.take(j).skip(i + 1));
    assert(forall|k: int|
        0 <= k < ts.take(j).skip(i + 1).len() ==> #[trigger] ts.take(j).skip(i + 1)[k]
            >= ts[i]);
    lemma_accept_floor(di1, ts.take(j).skip(i + 1), ts[i]);
    assert(dj.has_accepted && dj.last_accept >= ts[i]);
    lemma_run_window(d, ts.take(j));
}

/// Law: a burst of raw events that all lie within one quiet window of each
/// other, arriving on a fresh or long-quiet engine, produces exactly one
/// coalesced signal — for the first event of the burst, one full window
/// after it — and every later event of the burst is absorbed.
pub proof fn lemma_burst_emits_once(d: Debouncer, ts: Seq<u64>)
    requires
        ts.len() > 0,
        monotone(ts),
        accepts(d, ts[0]),
        forall|i: int| 0 <= i < ts.len() ==> #[trigger] ts[i] - ts[0] <= d.window,
        ts[0] + d.window <= u64::MAX,
    ensures
        decisions(d, ts).len() == ts.len(),
        decisions(d, ts)[0] == (Decision::Emit { emit_at: (ts[0] + d.window) as u64 }),
        forall|i: int|
            1 <= i < ts.len() ==> #[trigger] decisions(d, ts)[i] == Decision::Absorb,
{
    lemma_decisions_len(d, ts);
    let d1 = stepped(d, ts[0]);
    assert(d1.last_accept == ts[0]);
    lemma_tail_absorbed(d1, ts.drop_first());
    assert forall|i: int| 1 <= i < ts.len() implies #[trigger] decisions(d, ts)[i]
        == Decision::Absorb by {
        assert(decisions(d, ts)[i] == decisions(d1, ts.drop_first())[i - 1]);
    }
}

/// Law: two raw events more than one quiet window apart each produce a
/// coalesced signal, and each signal comes no earlier than one full window
/// after the event that triggered it.
pub proof fn lemma_separated_events_emit_twice(d: Debouncer, t1: u64, t2: u64)
    requires
        accepts(d, t1),
        t1 <= t2,
        t2 - t1 > d.window,
        t2 + d.window <= u64::MAX,
    ensures
        decisions(d, seq![t1, t2]).len() == 2,
        decisions(d, seq![t1, t2])[0] == (Decision::Emit { emit_at: (t1 + d.window) as u64 }),
        decisions(d, seq![t1, t2])[1] == (Decision::Emit { emit_at: (t2 + d.window) as u64 }),
{
    let ts = seq![t1, t2];
    lemma_decisions_len(d, ts);
    let d1 = stepped(d, ts[0]);
    assert(accepts(d1, t2));
    assert(ts.drop_first() =~= seq![t2]);
    assert(decisions(d, ts)[1] == decisions(d1, ts.drop_first())[0]);
}

} // verus!
