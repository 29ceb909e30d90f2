use vstd::prelude::*;

use crate::model::{DebouncerModel, Slot};

verus! {

/// What the timer of a ticket running out leads to.
#[derive(Debug, Clone, PartialEq, Eq)]
pub enum Outcome<T> {
    /// The ticket is still the live one and its delay is over: run the action
    /// with this payload.
    Fire(T),
    /// The ticket is live but its delay is not over: wait this many
    /// milliseconds more.
    Wait(u64),
    /// A later call took the slot, or the action already ran: do nothing.
    Superseded,
}

/// A call that was not scheduled because the debouncer has handed out every
/// ticket it can. Its payload is dropped.
#[derive(Debug, Clone, Copy, PartialEq, Eq)]
pub struct Rejected;

/// What a caller hands to the executor for one accepted call: race a sleep of
/// `wait` milliseconds against `cancelled`, and on wake-up ask `wake` about
/// `ticket`.
#[derive(Debug)]
pub struct Scheduled {
    pub ticket: u64,
    pub wait: u64,
    pub cancelled: tokio::sync::oneshot::Receiver<()>,
}

struct Pending<T> {
    ticket: u64,
    since: u64,
    payload: T,
    cancel: tokio::sync::oneshot::Sender<()>,
}

/// Coalesces bursts of calls into one delayed action. It holds the pending
/// slot; share it behind a lock, which gives each call exclusive access.
pub struct Debouncer<T> {
    delay: u64,
    issued: u64,
    pending: Option<Pending<T>>,
}

impl<T> View for Debouncer<T> {
    type V = DebouncerModel<T>;

    closed spec fn view(&self) -> DebouncerModel<T> {
        DebouncerModel {
            delay: self.delay,
            issued: self.issued,
            pending: match self.pending {
                Some(p) => Some(Slot { ticket: p.ticket, since: p.since, payload: p.payload }),
                None => None,
            },
        }
    }
}

impl<T> Debouncer<T> {
    #[verifier::type_invariant]
    closed spec fn inv(self) -> bool {
        self@.wf()
    }

    /// A debouncer whose actions run `delay` milliseconds after the call that
    /// scheduled them, unless a later call comes first.
    pub fn new(delay: u64) -> (r: Self)
        ensures
            r@ == DebouncerModel::<T>::idle(delay),
    {
        Debouncer { delay, issued: 0, pending: None }
    }

    /// Schedules the action with `payload`, called at time `now`. The pending
    /// action, if any, is cancelled and this one takes the slot; it is handed
    /// the next ticket.
    pub fn call(&mut self, now: u64, payload: T) -> (r: Result<Scheduled, Rejected>)
        ensures
            final(self)@ == old(self)@.after_call(now, payload),
            final(self)@.wf(),
            r is Ok <==> old(self)@.accepts(),
            r is Ok ==> r->Ok_0.ticket == old(self)@.issued && r->Ok_0.wait == old(self)@.delay,
    {
        proof {
            use_type_invariant(&*self);
        }
        if self.issued == u64::MAX {
            return Err(Rejected);
        }
        let (tx, rx) = tokio::sync::oneshot::channel::<()>();
        let ticket = self.issued;
        let mut previous: Option<Pending<T>> = None;
        std::mem::swap(&mut previous, &mut self.pending);
        if let Some(p) = previous {
            // The predecessor may have run already: then nobody listens, and
            // the signal is dropped.
            let _ = p.cancel.send(());
        }
        self.issued = ticket + 1;
        self.pending = Some(Pending { ticket, since: now, payload, cancel: tx });
        Ok(Scheduled { ticket, wait: self.delay, cancelled: rx })
    }

    /// Decides what happens when the timer of `ticket` runs out at `now`. The
    /// action runs only for the live ticket, once, and not before its delay is
    /// over.
    pub fn wake(&mut self, ticket: u64, now: u64) -> (r: Outcome<T>)
        ensures
            r == old(self)@.outcome(ticket, now),
            final(self)@ == old(self)@.after_wake(ticket, now),
            final(self)@.wf(),
    {
        proof {
            use_type_invariant(&*self);
        }
        let mut slot: Option<Pending<T>> = None;
        std::mem::swap(&mut slot, &mut self.pending);
        match slot {
            Some(p) => {
                if p.ticket != ticket {
                    self.pending = Some(p);
                    Outcome::Superseded
                } else if now >= p.since && now - p.since >= self.delay {
                    Outcome::Fire(p.payload)
                } else {
                    let left = if now >= p.since {
                        self.delay - (now - p.since)
                    } else {
                        self.delay
                    };
                    self.pending = Some(p);
                    Outcome::Wait(left)
                }
            },
            None => Outcome::Superseded,
        }
    }
}

} // verus!
