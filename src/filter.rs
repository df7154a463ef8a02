use vstd::prelude::*;

use crate::clock::now_seconds;
use crate::event::{Duration, EventWithId};

verus! {

pub const SECONDS_PER_DAY: i64 = 86400;

/// How long after its end a timed event counts as safely closed.
pub const GRACE_SECONDS: i64 = 3600;

/// Timed events that last this long or less are noise.
pub const MIN_DURATION_SECONDS: i64 = 300;

/// Which of the two suppression rules a source applies.
#[derive(Clone, Copy, Debug, PartialEq, Eq, Structural)]
pub struct FilterPolicy {
    pub suppress_in_progress: bool,
    pub suppress_short: bool,
}

impl Default for FilterPolicy {
    fn default() -> (r: FilterPolicy)
        ensures
            r.suppress_in_progress,
            r.suppress_short,
    {
        FilterPolicy { suppress_in_progress: true, suppress_short: true }
    }
}

/// The UTC day (counted from the Unix epoch) that contains second `t`.
pub open spec fn day_of(t: int) -> int {
    t / (SECONDS_PER_DAY as int)
}

/// The event's window closed safely before `now`: a timed event ended more
/// than an hour ago, an all-day event lies on yesterday or earlier.
pub open spec fn has_closed(d: Duration, now: int) -> bool {
    match d {
        Duration::StartEnd(_, end) => end < now - GRACE_SECONDS,
        Duration::WholeDay(day) => day <= day_of(now) - 1,
    }
}

/// A timed event lasts more than five minutes; all-day events always do.
pub open spec fn lasts_long_enough(d: Duration) -> bool {
    match d {
        Duration::StartEnd(start, end) => end - start > MIN_DURATION_SECONDS,
        Duration::WholeDay(_) => true,
    }
}

pub open spec fn passes_in_progress(e: EventWithId, now: int, policy: FilterPolicy) -> bool {
    !policy.suppress_in_progress || has_closed(e.duration, now)
}

pub open spec fn passes_min_duration(e: EventWithId, policy: FilterPolicy) -> bool {
    !policy.suppress_short || lasts_long_enough(e.duration)
}

/// An event survives both rules.
pub open spec fn kept(e: EventWithId, now: int, policy: FilterPolicy) -> bool {
    passes_in_progress(e, now, policy) && passes_min_duration(e, policy)
}

/// The events that filtering at time `now` keeps, in their order.
pub open spec fn filtered_at(events: Seq<EventWithId>, now: int, policy: FilterPolicy) -> Seq<
    EventWithId,
> {
    events.filter(|e: EventWithId| kept(e, now, policy))
}

/// `t / d` rounded towards negative infinity.
pub open spec fn floor_div_spec(t: int, d: int) -> int {
    t / d
}

/// `t / d` rounded towards negative infinity.
pub fn floor_div(t: i64, d: i64) -> (r: i64)
    requires
        d > 0,
    ensures
        r == floor_div_spec(t as int, d as int),
{
    if t >= 0 {
        t / d
    } else {
        let back: i64 = (-(t as i128) - 1) as i64;
        let q: i64 = back / d;
        assert(-q - 1 == t as int / d as int) by (nonlinear_arith)
            requires
                back == -(t as int) - 1,
                q == back / d,
                back >= 0,
                d > 0,
        ;
        -q - 1
    }
}

/// The UTC day that contains second `now`.
pub fn day_containing(now: i64) -> (r: i64)
    ensures
        r == day_of(now as int),
{
    floor_div(now, SECONDS_PER_DAY)
}


/// Whether a single event has safely closed at `now`.
pub fn is_closed(d: &Duration, now: i64) -> (r: bool)
    ensures
        r == has_closed(*d, now as int),
{
    match d {
        Duration::StartEnd(_, end) => (*end as i128) < (now as i128) - (GRACE_SECONDS as i128),
        Duration::WholeDay(day) => {
            let today = day_containing(now);
            (*day as i128) <= (today as i128) - 1
        },
    }
}

/// Whether a single event lasts long enough to be worth publishing.
pub fn is_long_enough(d: &Duration) -> (r: bool)
    ensures
        r == lasts_long_enough(*d),
{
    match d {
        Duration::StartEnd(start, end) => (*end as i128) - (*start as i128) > (
        MIN_DURATION_SECONDS as i128),
        Duration::WholeDay(_) => true,
    }
}

/// First pass: drops the events whose window has not safely closed at `now`,
/// unless the source opted out of that rule.
pub fn drop_in_progress(events: Vec<EventWithId>, now: i64, policy: FilterPolicy) -> (r: Vec<
    EventWithId,
>)
    ensures
        r@ == events@.filter(|e: EventWithId| passes_in_progress(e, now as int, policy)),
{
    let ghost pred = |e: EventWithId| passes_in_progress(e, now as int, policy);
    let ghost all = events@;
    let mut out: Vec<EventWithId> = Vec::new();
    for e in it: events.into_iter()
        invariant
            it.seq() == all,
            pred == (|e: EventWithId| passes_in_progress(e, now as int, policy)),
            out@ == all.take(it.index() as int).filter(pred),
    {
        let ghost i = it.index() as int;
        let keep = !policy.suppress_in_progress || is_closed(&e.duration, now);
        proof {
            reveal(Seq::filter);
            assert(all.take(i + 1).drop_last() =~= all.take(i));
            assert(all.take(i + 1).last() == e);
            assert(keep == pred(e));
            assert(all.take(i + 1).filter(pred) == if pred(e) {
                all.take(i).filter(pred).push(e)
            } else {
                all.take(i).filter(pred)
            });
        }
        if keep {
            out.push(e);
        }
    }
    proof {
        assert(all.take(all.len() as int) =~= all);
    }
    out
}

/// Second pass: drops timed events of five minutes or less, unless the
/// source opted out of that rule.
pub fn drop_short(events: Vec<EventWithId>, policy: FilterPolicy) -> (r: Vec<EventWithId>)
    ensures
        r@ == events@.filter(|e: EventWithId| passes_min_duration(e, policy)),
{
    let ghost pred = |e: EventWithId| passes_min_duration(e, policy);
    let ghost all = events@;
    let mut out: Vec<EventWithId> = Vec::new();
    for e in it: events.into_iter()
        invariant
            it.seq() == all,
            pred == (|e: EventWithId| passes_min_duration(e, policy)),
            out@ == all.take(it.index() as int).filter(pred),
    {
        let ghost i = it.index() as int;
        let keep = !policy.suppress_short || is_long_enough(&e.duration);
        proof {
            reveal(Seq::filter);
            assert(all.take(i + 1).drop_last() =~= all.take(i));
            assert(all.take(i + 1).last() == e);
            assert(keep == pred(e));
            assert(all.take(i + 1).filter(pred) == if pred(e) {
                all.take(i).filter(pred).push(e)
            } else {
                all.take(i).filter(pred)
            });
        }
        if keep {
            out.push(e);
        }
    }
    proof {
        assert(all.take(all.len() as int) =~= all);
    }
    out
}


/// Applying the two passes one after the other keeps exactly the events that
/// satisfy both rules, in their order.
pub proof fn lemma_two_passes(events: Seq<EventWithId>, now: int, policy: FilterPolicy)
    ensures
        events.filter(|e: EventWithId| passes_in_progress(e, now, policy)).filter(
            |e: EventWithId| passes_min_duration(e, policy),
        ) == filtered_at(events, now, policy),
    decreases events.len(),
{
    reveal(Seq::filter);
    let p = |e: EventWithId| passes_in_progress(e, now, policy);
    let q = |e: EventWithId| passes_min_duration(e, policy);
    let pq = |e: EventWithId| kept(e, now, policy);
    if events.len() > 0 {
        let rest = events.drop_last();
        let x = events.last();
        lemma_two_passes(rest, now, policy);
        assert(rest.filter(p).filter(q) == rest.filter(pq));
        if p(x) {
            assert(events.filter(p) == rest.filter(p).push(x));
            assert(events.filter(p).drop_last() =~= rest.filter(p));
            assert(events.filter(p).filter(q) == if q(x) {
                rest.filter(p).filter(q).push(x)
            } else {
                rest.filter(p).filter(q)
            });
        } else {
            assert(events.filter(p) == rest.filter(p));
        }
        assert(events.filter(pq) == if pq(x) {
            rest.filter(pq).push(x)
        } else {
            rest.filter(pq)
        });
    } else {
        assert(events.filter(p) == events);
    }
}

/// Filters at time `now` (seconds since the Unix epoch, UTC): first drops the
/// events still in progress, then the too-short ones, each pass only where
/// `policy` asks for it.
pub fn filter_event_at(events: Vec<EventWithId>, now: i64, policy: FilterPolicy) -> (r: Vec<
    EventWithId,
>)
    ensures
        r@ == filtered_at(events@, now as int, policy),
{
    let closed = drop_in_progress(events, now, policy);
    let r = drop_short(closed, policy);
    proof {
        lemma_two_passes(events@, now as int, policy);
    }
    r
}


/// Filters against the current time: whatever the clock reads, the result is
/// what `filter_event_at` gives at that reading.
pub fn filter_event(events: Vec<EventWithId>, policy: FilterPolicy) -> (r: Vec<EventWithId>)
    ensures
        exists|now: i64| r@ == #[trigger] filtered_at(events@, now as int, policy),
{
    let now = now_seconds();
    let r = filter_event_at(events, now, policy);
    assert(r@ == filtered_at(events@, now as int, policy));
    r
}

} // verus!
