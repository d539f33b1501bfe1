//! The channel endpoints that carry values between the test thread and the
//! server context.
//!
//! What a channel holds at any moment depends on what the other side has done
//! so far, so nothing is claimed about the outcome of a single operation: the
//! callers here are verified for every outcome.

use crossbeam_channel::{Receiver, Sender, TryRecvError, TrySendError};
use vstd::prelude::*;

verus! {

#[verifier::external_type_specification]
#[verifier::external_body]
#[verifier::reject_recursive_types(T)]
pub struct ExSender<T>(Sender<T>);

#[verifier::external_type_specification]
#[verifier::external_body]
#[verifier::reject_recursive_types(T)]
pub struct ExReceiver<T>(Receiver<T>);

#[verifier::external_type_specification]
pub struct ExTryRecvError(TryRecvError);

#[verifier::external_type_specification]
#[verifier::reject_recursive_types(T)]
pub struct ExTrySendError<T>(TrySendError<T>);

/// `unbounded`: makes a channel without a limit on what it holds, and gives
/// its two ends. Nothing is promised of them.
pub assume_specification<T>[ crossbeam_channel::unbounded::<T> ]() -> (ends: (
    Sender<T>,
    Receiver<T>,
));

/// `Receiver::len`: the number of messages in the channel at the moment of the
/// call. Nothing is promised of it.
pub assume_specification<T>[ Receiver::<T>::len ](rx: &Receiver<T>) -> (n: usize);

/// `Receiver::try_recv`: takes the oldest message out of the channel if there
/// is one, without blocking. Nothing is promised of the outcome.
pub assume_specification<T>[ Receiver::<T>::try_recv ](rx: &Receiver<T>) -> (r: Result<
    T,
    TryRecvError,
>);

/// `Sender::try_send`: hands a message to the channel without blocking, or
/// gives it back. Nothing is promised of the outcome.
pub assume_specification<T>[ Sender::<T>::try_send ](tx: &Sender<T>, msg: T) -> (r: Result<
    (),
    TrySendError<T>,
>);

} // verus!
