use vstd::prelude::*;

verus! {

/// The sending half of a one-shot channel of the tokio runtime. It tells a
/// scheduled unit of work that it has been superseded.
#[verifier::external_type_specification]
#[verifier::external_body]
#[verifier::reject_recursive_types(T)]
pub struct ExSender<T>(tokio::sync::oneshot::Sender<T>);

/// The receiving half of a one-shot channel of the tokio runtime.
#[verifier::external_type_specification]
#[verifier::external_body]
#[verifier::reject_recursive_types(T)]
pub struct ExReceiver<T>(tokio::sync::oneshot::Receiver<T>);

/// The error a receiver yields when its sender is dropped unsent.
#[verifier::external_type_specification]
#[verifier::external_body]
pub struct ExRecvError(tokio::sync::oneshot::error::RecvError);

/// Relies on `tokio::sync::oneshot::channel`: it makes a fresh pair of
/// connected halves and never fails.
pub assume_specification<T>[ tokio::sync::oneshot::channel::<T> ]() -> (
    tokio::sync::oneshot::Sender<T>,
    tokio::sync::oneshot::Receiver<T>,
);

/// Relies on `tokio::sync::oneshot::Sender::send`: it consumes the sender and,
/// where the receiver is already gone, hands the value back unsent.
pub assume_specification<T>[ tokio::sync::oneshot::Sender::<T>::send ](
    tx: tokio::sync::oneshot::Sender<T>,
    t: T,
) -> (r: Result<(), T>)
    ensures
        r is Err ==> r->Err_0 == t,
;

} // verus!
