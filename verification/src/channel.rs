//! The receiving end of the sample channel.

use vstd::prelude::*;
use tokio::sync::mpsc::Receiver;
use crate::pinger::PingSample;

verus! {

/// `tokio::sync::mpsc::Receiver`, the receiving half of a bounded channel.
/// It is carried through as it is; nothing is known of what it holds.
#[verifier::external_type_specification]
#[verifier::external_body]
#[verifier::reject_recursive_types(T)]
pub struct ExReceiver<T>(Receiver<T>);

/// Calls `tokio::sync::mpsc::Receiver::try_recv` and keeps the sample, if one
/// came. Whether one comes depends on what the sending task has done, so
/// nothing is claimed of the result: `None` stands for a channel that is
/// empty now as well as for one that is closed and drained.
#[verifier::external_body]
pub(crate) fn try_next(rx: &mut Receiver<PingSample>) -> (sample: Option<PingSample>) {
    rx.try_recv().ok()
}

} // verus!
