//! The bounded channel that carries decoded frames to the presenter.
//!
//! What a channel holds at any moment depends on the thread at its other
//! end, so nothing is claimed here about what a receive returns.

use crossbeam_channel::Receiver;
use vstd::prelude::*;

verus! {

/// `crossbeam_channel::Receiver`, the receiving end of a channel. Its
/// contents are not visible to proofs.
#[verifier::external_type_specification]
#[verifier::external_body]
#[verifier::reject_recursive_types(T)]
pub struct ExReceiver<T>(Receiver<T>);

/// Calls `Receiver::try_recv`, which returns at once: a waiting message if
/// there is one, nothing if the channel is empty or closed. The two reasons
/// for nothing are not told apart. Nothing is assumed of the answer.
#[verifier::external_body]
pub(crate) fn try_take<T>(rx: &Receiver<T>) -> (got: Option<T>) {
    rx.try_recv().ok()
}

} // verus!
