use vstd::prelude::*;

use crate::model::{count_calls, is_due_wake, time_of, DebouncerModel, Event, Firing, Slot};

verus! {

/// Replaying two runs one after the other is replaying them joined.
pub proof fn lemma_replay_append<T>(s: DebouncerModel<T>, a: Seq<Event<T>>, b: Seq<Event<T>>)
    ensures
        s.replay(a + b).0 == s.replay(a).0.replay(b).0,
        s.replay(a + b).1 == s.replay(a).1 + s.replay(a).0.replay(b).1,
    decreases b.len(),
{
    if b.len() == 0 {
        assert(a + b =~= a);
        assert(s.replay(a).1 + Seq::<Firing<T>>::empty() =~= s.replay(a).1);
    } else {
        lemma_replay_append(s, a, b.drop_last());
        assert((a + b).drop_last() =~= a + b.drop_last());
        assert((a + b).last() == b.last());
        let mid = s.replay(a).0;
        let fa = s.replay(a).1;
        let fb = mid.replay(b.drop_last()).1;
        assert forall|x: Firing<T>| (fa + fb).push(x) =~= fa + fb.push(x) by {}
    }
}

/// Facts kept along every run from a well-formed state: the slot holds only
/// the latest ticket, the delay stays, and the tickets of the invocations
/// rise strictly, each below every ticket still to come.
proof fn lemma_run_invariant<T>(s: DebouncerModel<T>, events: Seq<Event<T>>)
    requires
        s.wf(),
    ensures
        ({
            let (r, fired) = s.replay(events);
            &&& r.wf()
            &&& r.delay == s.delay
            &&& r.issued >= s.issued
            &&& forall|i: int| 0 <= i < fired.len() ==> fired[i].ticket < r.issued
            &&& forall|i: int|
                0 <= i < fired.len() && r.pending is Some ==> fired[i].ticket
                    < r.pending->Some_0.ticket
            &&& forall|i: int, j: int|
                0 <= i < j < fired.len() ==> fired[i].ticket < fired[j].ticket
            &&& forall|i: int|
                0 <= i < fired.len() ==> fired[i].at >= fired[i].since + s.delay
        }),
    decreases events.len(),
{
    if events.len() > 0 {
        lemma_run_invariant(s, events.drop_last());
    }
}

/// No double firing: in any run, whatever the order of calls and timers, the
/// tickets of the invocations rise strictly, so no scheduled action runs
/// twice.
pub proof fn lemma_fires_at_most_once<T>(s: DebouncerModel<T>, events: Seq<Event<T>>)
    requires
        s.wf(),
    ensures
        forall|i: int, j: int|
            0 <= i < j < s.replay(events).1.len() ==> s.replay(events).1[i].ticket < s.replay(
                events,
            ).1[j].ticket,
{
    lemma_run_invariant(s, events);
}

/// Timing lower bound: in any run, every invocation comes at least `delay`
/// after the call that scheduled it.
pub proof fn lemma_never_early<T>(s: DebouncerModel<T>, events: Seq<Event<T>>)
    requires
        s.wf(),
    ensures
        forall|i: int|
            0 <= i < s.replay(events).1.len() ==> s.replay(events).1[i].at >= s.replay(
                events,
            ).1[i].since + s.delay,
{
    lemma_run_invariant(s, events);
}

/// A ticket that was handed out and is not in the slot never fires again.
proof fn lemma_dead_ticket<T>(s: DebouncerModel<T>, t: u64, events: Seq<Event<T>>)
    requires
        s.wf(),
        t < s.issued,
        s.pending is None || s.pending->Some_0.ticket != t,
    ensures
        ({
            let (r, fired) = s.replay(events);
            &&& r.wf()
            &&& t < r.issued
            &&& r.pending is None || r.pending->Some_0.ticket != t
            &&& forall|i: int| 0 <= i < fired.len() ==> fired[i].ticket != t
        }),
    decreases events.len(),
{
    if events.len() > 0 {
        lemma_dead_ticket(s, t, events.drop_last());
    }
}

/// No firing after cancellation: once a call replaces a pending action, that
/// action never runs, whatever happens next.
pub proof fn lemma_superseded_never_fires<T>(
    s: DebouncerModel<T>,
    now: u64,
    payload: T,
    events: Seq<Event<T>>,
)
    requires
        s.wf(),
        s.pending is Some,
        s.accepts(),
    ensures
        forall|i: int|
            0 <= i < s.after_call(now, payload).replay(events).1.len() ==> s.after_call(
                now,
                payload,
            ).replay(events).1[i].ticket != s.pending->Some_0.ticket,
{
    lemma_dead_ticket(s.after_call(now, payload), s.pending->Some_0.ticket, events);
}

/// After the last call of a burst only timers run out: the pending action
/// fires once, at the first of them that is its own and due, and never again.
proof fn lemma_quiet_tail<T>(s: DebouncerModel<T>, tail: Seq<Event<T>>)
    requires
        s.wf(),
        s.pending is Some,
        forall|i: int| 0 <= i < tail.len() ==> tail[i] is Wake,
    ensures
        ({
            let (r, fired) = s.replay(tail);
            let p = s.pending->Some_0;
            &&& fired.len() <= 1
            &&& fired.len() == 0 ==> r == s && forall|i: int|
                0 <= i < tail.len() ==> !is_due_wake(tail[i], p.ticket, p.since + s.delay)
            &&& fired.len() == 1 ==> {
                &&& fired[0].ticket == p.ticket
                &&& fired[0].since == p.since
                &&& fired[0].payload == p.payload
                &&& fired[0].at >= p.since + s.delay
                &&& r.pending is None
            }
        }),
    decreases tail.len(),
{
    if tail.len() > 0 {
        let front = tail.drop_last();
        let e = tail.last();
        lemma_quiet_tail(s, front);
        assert(forall|i: int| 0 <= i < front.len() ==> front[i] == tail[i]);
        assert(e == tail[tail.len() - 1]);
        assert(e is Wake);
        let (r1, f1) = s.replay(front);
        assert(s.replay(tail) == (r1.step(e).0, match r1.step(e).1 {
            Some(x) => f1.push(x),
            None => f1,
        }));
    }
}

/// A burst that opens with a call and whose timers all run out before the
/// delay of any of its calls can be over fires nothing; it leaves the latest
/// call in the slot.
proof fn lemma_burst<T>(s: DebouncerModel<T>, burst: Seq<Event<T>>, t0: int)
    requires
        s.wf(),
        burst.len() >= 1,
        burst[0] is Call,
        forall|i: int| 0 <= i < burst.len() && burst[i] is Call ==> time_of(burst[i]) >= t0,
        forall|i: int|
            0 <= i < burst.len() && burst[i] is Wake ==> time_of(burst[i]) < t0 + s.delay,
        s.issued + count_calls(burst) <= u64::MAX,
    ensures
        ({
            let (r, fired) = s.replay(burst);
            &&& fired.len() == 0
            &&& r.wf()
            &&& r.delay == s.delay
            &&& r.issued == s.issued + count_calls(burst)
            &&& r.pending is Some
            &&& r.pending->Some_0.since >= t0
            &&& burst.last() is Call ==> r.pending == Some(
                Slot {
                    ticket: (r.issued - 1) as u64,
                    since: time_of(burst.last()),
                    payload: burst.last()->payload,
                },
            )
        }),
    decreases burst.len(),
{
    let front = burst.drop_last();
    let e = burst.last();
    assert(e == burst[burst.len() - 1]);
    assert(forall|i: int| 0 <= i < front.len() ==> front[i] == burst[i]);
    assert(count_calls(burst) == count_calls(front) + if e is Call {
        1nat
    } else {
        0nat
    });
    if burst.len() > 1 {
        assert(front[0] == burst[0]);
        lemma_burst(s, front, t0);
        let (r1, f1) = s.replay(front);
        assert(s.replay(burst) == (r1.step(e).0, match r1.step(e).1 {
            Some(x) => f1.push(x),
            None => f1,
        }));
        if e is Wake {
            assert(time_of(e) < t0 + s.delay);
        } else {
            assert(time_of(e) >= t0);
        }
    } else {
        assert(front.len() == 0);
        assert(count_calls(front) == 0);
        assert(e == burst[0]);
        assert(s.replay(burst) == (s.step(e).0, match s.step(e).1 {
            Some(x) => Seq::<Firing<T>>::empty().push(x),
            None => Seq::<Firing<T>>::empty(),
        }));
    }
}

/// Single-fire coalescing: calls that all come within a window shorter than
/// the delay, with whatever timers run out among them, make exactly one
/// invocation once the last call's timer is due, and it carries the payload
/// of the last call.
pub proof fn lemma_burst_fires_once<T>(
    s: DebouncerModel<T>,
    burst: Seq<Event<T>>,
    tail: Seq<Event<T>>,
)
    requires
        s.wf(),
        burst.len() >= 1,
        burst[0] is Call,
        burst.last() is Call,
        forall|i: int|
            0 <= i < burst.len() ==> time_of(burst[0]) <= #[trigger] time_of(burst[i])
                < time_of(burst[0]) + s.delay,
        s.issued + count_calls(burst) <= u64::MAX,
        forall|i: int| 0 <= i < tail.len() ==> tail[i] is Wake,
        exists|i: int|
            0 <= i < tail.len() && is_due_wake(
                tail[i],
                (s.issued + count_calls(burst) - 1) as u64,
                time_of(burst.last()) + s.delay,
            ),
    ensures
        s.replay(burst + tail).1.len() == 1,
        s.replay(burst + tail).1[0].payload == burst.last()->payload,
        s.replay(burst + tail).1[0].since == time_of(burst.last()),
        s.replay(burst + tail).1[0].at >= time_of(burst.last()) + s.delay,
{
    lemma_burst(s, burst, time_of(burst[0]) as int);
    lemma_quiet_tail(s.replay(burst).0, tail);
    lemma_replay_append(s, burst, tail);
    assert(s.replay(burst).1 + s.replay(burst).0.replay(tail).1 =~= s.replay(burst).0.replay(
        tail,
    ).1);
}

/// A run of calls alone counts every event.
proof fn lemma_count_only_calls<T>(calls: Seq<Event<T>>)
    requires
        forall|i: int| 0 <= i < calls.len() ==> calls[i] is Call,
    ensures
        count_calls(calls) == calls.len(),
    decreases calls.len(),
{
    if calls.len() > 0 {
        let front = calls.drop_last();
        assert(forall|i: int| 0 <= i < front.len() ==> front[i] == calls[i]);
        assert(calls.last() == calls[calls.len() - 1]);
        lemma_count_only_calls(front);
    }
}

/// Back-to-back calls, zero delay included: calls handled one after another
/// with no timer in between make no invocation themselves, so nothing fires
/// inside a call. Once the last call's timer is due, exactly one invocation
/// follows, with the last payload, no earlier than the delay after it.
pub proof fn lemma_back_to_back_calls_fire_once<T>(
    s: DebouncerModel<T>,
    calls: Seq<Event<T>>,
    tail: Seq<Event<T>>,
)
    requires
        s.wf(),
        calls.len() >= 1,
        forall|i: int| 0 <= i < calls.len() ==> calls[i] is Call,
        s.issued + calls.len() <= u64::MAX,
        forall|i: int| 0 <= i < tail.len() ==> tail[i] is Wake,
        exists|i: int|
            0 <= i < tail.len() && is_due_wake(
                tail[i],
                (s.issued + calls.len() - 1) as u64,
                time_of(calls.last()) + s.delay,
            ),
    ensures
        s.replay(calls).1.len() == 0,
        s.replay(calls + tail).1.len() == 1,
        s.replay(calls + tail).1[0].payload == calls.last()->payload,
        s.replay(calls + tail).1[0].since == time_of(calls.last()),
        s.replay(calls + tail).1[0].at >= time_of(calls.last()) + s.delay,
{
    lemma_count_only_calls(calls);
    assert(calls.last() == calls[calls.len() - 1]);
    lemma_burst(s, calls, 0);
    lemma_quiet_tail(s.replay(calls).0, tail);
    lemma_replay_append(s, calls, tail);
    assert(s.replay(calls).1 + s.replay(calls).0.replay(tail).1 =~= s.replay(calls).0.replay(
        tail,
    ).1);
}

/// Independent firing: two calls more than the delay apart each make their
/// own invocation with their own payload, when the first call's timer runs
/// out on time, before the second call.
pub proof fn lemma_spaced_calls_fire_independently<T>(
    s: DebouncerModel<T>,
    t1: u64,
    a: T,
    w1: u64,
    t2: u64,
    b: T,
    w2: u64,
)
    requires
        s.wf(),
        s.issued + 2 <= u64::MAX,
        t1 + s.delay < t2,
        t1 + s.delay <= w1 <= t2,
        w2 >= t2 + s.delay,
    ensures
        s.replay(
            seq![
                Event::Call { now: t1, payload: a },
                Event::Wake { ticket: s.issued, now: w1 },
                Event::Call { now: t2, payload: b },
                Event::Wake { ticket: (s.issued + 1) as u64, now: w2 },
            ],
        ).1 == seq![
            Firing { ticket: s.issued, since: t1, at: w1, payload: a },
            Firing { ticket: (s.issued + 1) as u64, since: t2, at: w2, payload: b },
        ],
{
    let e1 = Event::Call { now: t1, payload: a };
    let e2 = Event::Wake { ticket: s.issued, now: w1 };
    let e3 = Event::Call { now: t2, payload: b };
    let e4 = Event::Wake { ticket: (s.issued + 1) as u64, now: w2 };
    let run = seq![e1, e2, e3, e4];
    assert(run.drop_last() =~= seq![e1, e2, e3]);
    assert(seq![e1, e2, e3].drop_last() =~= seq![e1, e2]);
    assert(seq![e1, e2].drop_last() =~= seq![e1]);
    assert(seq![e1].drop_last() =~= Seq::<Event<T>>::empty());
    assert(seq![e1].last() == e1);
    assert(seq![e1, e2].last() == e2);
    assert(seq![e1, e2, e3].last() == e3);
    assert(run.last() == e4);
    assert(s.replay(Seq::<Event<T>>::empty()) == (s, Seq::<Firing<T>>::empty()));
    let f1 = s.replay(seq![e1]).1;
    assert(f1 =~= Seq::<Firing<T>>::empty());
    let f2 = s.replay(seq![e1, e2]).1;
    assert(f2 =~= seq![Firing { ticket: s.issued, since: t1, at: w1, payload: a }]);
    let f3 = s.replay(seq![e1, e2, e3]).1;
    assert(f3 == f2);
    assert(s.replay(run).1 =~= seq![
        Firing { ticket: s.issued, since: t1, at: w1, payload: a },
        Firing { ticket: (s.issued + 1) as u64, since: t2, at: w2, payload: b },
    ]);
}

} // verus!
