use vstd::prelude::*;

use crate::debouncer::Outcome;

verus! {

/// The occupant of the pending slot: the one scheduled action that may still
/// run. `since` is the time of the call that scheduled it.
pub struct Slot<T> {
    pub ticket: u64,
    pub since: u64,
    pub payload: T,
}

/// What a debouncer is, as far as its decisions go. Times are milliseconds on
/// one monotonic clock. `issued` counts the tickets handed out so far; the
/// next call gets ticket `issued`.
pub struct DebouncerModel<T> {
    pub delay: u64,
    pub issued: u64,
    pub pending: Option<Slot<T>>,
}

/// One thing that happens to a debouncer: a call with its payload, or the
/// timer of a ticket running out.
pub enum Event<T> {
    Call { now: u64, payload: T },
    Wake { ticket: u64, now: u64 },
}

/// An invocation of the action: which ticket ran, when it was scheduled, when
/// it ran, and with what payload.
pub struct Firing<T> {
    pub ticket: u64,
    pub since: u64,
    pub at: u64,
    pub payload: T,
}

/// The time at which an event happens.
pub open spec fn time_of<T>(e: Event<T>) -> u64 {
    match e {
        Event::Call { now, .. } => now,
        Event::Wake { now, .. } => now,
    }
}

/// How many calls a run holds.
pub open spec fn count_calls<T>(events: Seq<Event<T>>) -> nat
    decreases events.len(),
{
    if events.len() == 0 {
        0
    } else {
        count_calls(events.drop_last()) + if events.last() is Call {
            1nat
        } else {
            0nat
        }
    }
}

/// Whether `e` is the timer of `ticket` running out no earlier than `due`.
pub open spec fn is_due_wake<T>(e: Event<T>, ticket: u64, due: int) -> bool {
    match e {
        Event::Wake { ticket: k, now } => k == ticket && now >= due,
        Event::Call { .. } => false,
    }
}

impl<T> DebouncerModel<T> {
    /// A debouncer that has never been called.
    pub open spec fn idle(delay: u64) -> Self {
        DebouncerModel { delay, issued: 0, pending: None }
    }

    /// Only the latest ticket can occupy the slot.
    pub open spec fn wf(self) -> bool {
        match self.pending {
            Some(p) => p.ticket + 1 == self.issued,
            None => true,
        }
    }

    /// A call is accepted while tickets are left.
    pub open spec fn accepts(self) -> bool {
        self.issued < u64::MAX
    }

    /// A call supersedes whatever is pending and becomes the sole occupant.
    pub open spec fn after_call(self, now: u64, payload: T) -> Self {
        if self.accepts() {
            DebouncerModel {
                delay: self.delay,
                issued: (self.issued + 1) as u64,
                pending: Some(Slot { ticket: self.issued, since: now, payload }),
            }
        } else {
            self
        }
    }

    /// Whether the delay has run out at `now` for an action scheduled at `since`.
    pub open spec fn elapsed(self, since: u64, now: u64) -> bool {
        now >= since + self.delay
    }

    /// How long an action scheduled at `since` has still to wait at `now`.
    pub open spec fn remaining(self, since: u64, now: u64) -> u64 {
        if now >= since {
            (self.delay - (now - since)) as u64
        } else {
            self.delay
        }
    }

    /// What the timer of `ticket` running out at `now` leads to.
    pub open spec fn outcome(self, ticket: u64, now: u64) -> Outcome<T> {
        match self.pending {
            Some(p) => if p.ticket != ticket {
                Outcome::Superseded
            } else if self.elapsed(p.since, now) {
                Outcome::Fire(p.payload)
            } else {
                Outcome::Wait(self.remaining(p.since, now))
            },
            None => Outcome::Superseded,
        }
    }

    /// An action that fires leaves the slot empty; nothing else changes it.
    pub open spec fn after_wake(self, ticket: u64, now: u64) -> Self {
        if self.outcome(ticket, now) is Fire {
            DebouncerModel { delay: self.delay, issued: self.issued, pending: None }
        } else {
            self
        }
    }

    /// One event: the next state, and the invocation it makes, if any.
    pub open spec fn step(self, e: Event<T>) -> (Self, Option<Firing<T>>) {
        match e {
            Event::Call { now, payload } => (self.after_call(now, payload), None),
            Event::Wake { ticket, now } => (
                self.after_wake(ticket, now),
                match self.outcome(ticket, now) {
                    Outcome::Fire(payload) => Some(
                        Firing { ticket, since: self.pending->Some_0.since, at: now, payload },
                    ),
                    _ => None,
                },
            ),
        }
    }

    /// A run of events in the order they were handled: the final state and
    /// every invocation made, in order.
    pub open spec fn replay(self, events: Seq<Event<T>>) -> (Self, Seq<Firing<T>>)
        decreases events.len(),
    {
        if events.len() == 0 {
            (self, Seq::empty())
        } else {
            let (s, fired) = self.replay(events.drop_last());
            let (next, f) = s.step(events.last());
            (
                next,
                match f {
                    Some(x) => fired.push(x),
                    None => fired,
                },
            )
        }
    }
}

} // verus!
