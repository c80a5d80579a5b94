//! The one-shot channel of the `futures` crate, as far as the key exchange
//! uses it.
//!
//! A channel carries one value from its sending half to its receiving half.
//! What either half does depends on the other, which may be in another
//! thread, so the halves are opaque here and next to nothing is claimed of
//! the calls. Nothing in this file is proved.

use futures::sync::oneshot::{Canceled, Receiver, Sender};
use vstd::prelude::*;

verus! {

/// The sending half of a one-shot channel of the `futures` crate. Nothing of
/// its state is visible here.
#[verifier::external_type_specification]
#[verifier::external_body]
#[verifier::reject_recursive_types(T)]
pub struct ExSender<T>(futures::sync::oneshot::Sender<T>);

/// The receiving half of a one-shot channel of the `futures` crate. Nothing
/// of its state is visible here.
#[verifier::external_type_specification]
#[verifier::external_body]
#[verifier::reject_recursive_types(T)]
pub struct ExReceiver<T>(futures::sync::oneshot::Receiver<T>);

/// The error with which the receiving half of a one-shot channel reports
/// that its sending half is gone.
#[verifier::external_type_specification]
#[verifier::external_body]
pub struct ExCanceled(futures::sync::oneshot::Canceled);

/// `futures::sync::oneshot::channel` makes a new channel and returns its two
/// halves. Nothing is claimed of them.
pub assume_specification<T>[ futures::sync::oneshot::channel::<T> ]() -> (halves: (
    Sender<T>,
    Receiver<T>,
));

/// `Sender::send` hands a value to the receiving half and uses the sender up.
/// Whether the value arrives depends on the other half; where it does not,
/// the value that comes back is the one that was given.
pub assume_specification<T>[ futures::sync::oneshot::Sender::<T>::send ](
    sender: Sender<T>,
    t: T,
) -> (res: Result<(), T>)
    ensures
        res matches Err(back) ==> back == t,
;

/// `Receiver::try_recv` looks whether a value has arrived, without waiting
/// and without a task. What it finds depends on the other half, so nothing
/// is claimed of the result.
pub assume_specification<T>[ futures::sync::oneshot::Receiver::<T>::try_recv ](
    receiver: &mut Receiver<T>,
) -> (res: Result<Option<T>, Canceled>);

} // verus!
