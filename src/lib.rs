//! A debounce primitive: bursts of calls are coalesced into one delayed action
//! that carries the payload of the latest call.
//!
//! The library holds the decisions. A call occupies the pending slot and
//! cancels its predecessor; a timer that elapses asks whether its ticket is
//! still the live one before the action runs. The executor that sleeps and
//! races the timer against the cancellation signal drives these decisions from
//! outside.

pub mod cancel;
pub mod debouncer;
pub mod laws;
pub mod model;
