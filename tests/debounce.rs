use debounce::debouncer::{Debouncer, Outcome};
use tokio::sync::oneshot::error::TryRecvError;

#[test]
fn burst_fires_last_payload_once() {
    let mut d = Debouncer::new(100);
    let a = d.call(0, "a").unwrap();
    let b = d.call(30, "b").unwrap();
    let c = d.call(60, "c").unwrap();
    assert_eq!((a.ticket, b.ticket, c.ticket), (0, 1, 2));
    assert_eq!(c.wait, 100);
    assert_eq!(d.wake(a.ticket, 100), Outcome::Superseded);
    assert_eq!(d.wake(b.ticket, 130), Outcome::Superseded);
    assert_eq!(d.wake(c.ticket, 159), Outcome::Wait(1));
    assert_eq!(d.wake(c.ticket, 160), Outcome::Fire("c"));
    assert_eq!(d.wake(c.ticket, 170), Outcome::Superseded);
}

#[test]
fn single_call_fires_after_delay() {
    let mut d = Debouncer::new(50);
    let x = d.call(0, "x").unwrap();
    assert_eq!(x.wait, 50);
    assert_eq!(d.wake(x.ticket, 50), Outcome::Fire("x"));
    assert_eq!(d.wake(x.ticket, 100), Outcome::Superseded);
}

#[test]
fn many_calls_within_window_fire_once() {
    let mut d = Debouncer::new(20);
    let mut tickets = Vec::new();
    for (i, t) in [5u64, 9, 12, 20, 24].iter().enumerate() {
        tickets.push(d.call(*t, i).unwrap().ticket);
    }
    let mut fired = Vec::new();
    for (k, ticket) in tickets.iter().enumerate() {
        if let Outcome::Fire(p) = d.wake(*ticket, 44 + k as u64) {
            fired.push(p);
        }
    }
    assert_eq!(fired, vec![4]);
}

#[test]
fn spaced_calls_fire_independently() {
    let mut d = Debouncer::new(100);
    let a = d.call(0, "a").unwrap();
    assert_eq!(d.wake(a.ticket, 100), Outcome::Fire("a"));
    let b = d.call(150, "b").unwrap();
    assert_eq!(d.wake(b.ticket, 250), Outcome::Fire("b"));
}

#[test]
fn never_fires_before_delay() {
    let mut d = Debouncer::new(100);
    let a = d.call(40, 1u8).unwrap();
    assert_eq!(d.wake(a.ticket, 40), Outcome::Wait(100));
    assert_eq!(d.wake(a.ticket, 139), Outcome::Wait(1));
    assert_eq!(d.wake(a.ticket, 10), Outcome::Wait(100));
    assert_eq!(d.wake(a.ticket, 140), Outcome::Fire(1));
}

#[test]
fn fired_or_superseded_ticket_never_fires_again() {
    let mut d = Debouncer::new(10);
    let a = d.call(0, 'a').unwrap();
    assert_eq!(d.wake(a.ticket, 10), Outcome::Fire('a'));
    assert_eq!(d.wake(a.ticket, 10), Outcome::Superseded);
    let b = d.call(20, 'b').unwrap();
    let c = d.call(25, 'c').unwrap();
    assert_eq!(d.wake(b.ticket, 1000), Outcome::Superseded);
    assert_eq!(d.wake(c.ticket, 35), Outcome::Fire('c'));
    assert_eq!(d.wake(b.ticket, 2000), Outcome::Superseded);
    assert_eq!(d.wake(c.ticket, 2000), Outcome::Superseded);
}

#[test]
fn zero_delay_fires_once_per_burst() {
    let mut d = Debouncer::new(0);
    let a = d.call(7, "a").unwrap();
    let b = d.call(7, "b").unwrap();
    assert_eq!(b.wait, 0);
    assert_eq!(d.wake(a.ticket, 7), Outcome::Superseded);
    assert_eq!(d.wake(b.ticket, 7), Outcome::Fire("b"));
    assert_eq!(d.wake(b.ticket, 7), Outcome::Superseded);
    let c = d.call(8, "c").unwrap();
    assert_eq!(d.wake(c.ticket, 8), Outcome::Fire("c"));
}

#[test]
fn unknown_ticket_is_superseded() {
    let mut d: Debouncer<u32> = Debouncer::new(5);
    assert_eq!(d.wake(0, 100), Outcome::Superseded);
    assert_eq!(d.wake(3, 100), Outcome::Superseded);
}

#[test]
fn call_signals_cancel_to_predecessor() {
    let mut d = Debouncer::new(100);
    let mut a = d.call(0, "a").unwrap();
    assert_eq!(a.cancelled.try_recv(), Err(TryRecvError::Empty));
    let mut b = d.call(10, "b").unwrap();
    assert_eq!(a.cancelled.try_recv(), Ok(()));
    assert_eq!(b.cancelled.try_recv(), Err(TryRecvError::Empty));
    assert_eq!(d.wake(b.ticket, 110), Outcome::Fire("b"));
    assert_eq!(b.cancelled.try_recv(), Err(TryRecvError::Closed));
}
