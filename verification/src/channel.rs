//! The channels between a caller and a plugin that serves requests from a
//! queue of its own.

use tokio::sync::mpsc;
use tokio::sync::oneshot;
use vstd::prelude::*;

verus! {

/// What a plugin answers to one request.
pub type Reply = Result<String, ()>;

/// One request to a queued plugin: the method, its arguments, and the
/// single-use conduit for the answer.
pub type Request = (String, String, oneshot::Sender<Reply>);

/// `tokio::sync::mpsc::Sender`: a sending end of a bounded queue.
#[verifier::external_type_specification]
#[verifier::external_body]
#[verifier::reject_recursive_types(T)]
pub struct ExQueueSender<T>(mpsc::Sender<T>);

/// `tokio::sync::oneshot::Sender`: the sending end of a conduit for one
/// value.
#[verifier::external_type_specification]
#[verifier::external_body]
#[verifier::reject_recursive_types(T)]
pub struct ExReplySender<T>(oneshot::Sender<T>);

/// `tokio::sync::oneshot::Receiver`: the receiving end of a conduit for one
/// value.
#[verifier::external_type_specification]
#[verifier::external_body]
#[verifier::reject_recursive_types(T)]
pub struct ExReplyReceiver<T>(oneshot::Receiver<T>);

/// `tokio::sync::oneshot::error::RecvError`: the sending end went away
/// without sending.  It is what waiting at a receiving end can fail with,
/// and the type of the receiving end names it.
#[verifier::external_type_specification]
#[verifier::external_body]
pub struct ExRecvError(oneshot::error::RecvError);

/// `oneshot::channel` makes the two ends of a conduit that carries one
/// value.  Nothing is claimed of the ends.
pub assume_specification<T>[ oneshot::channel::<T> ]() -> (ends: (
    oneshot::Sender<T>,
    oneshot::Receiver<T>,
));

/// Cloning an `mpsc::Sender` gives another sending end of the same queue.
/// A queue has no model here, so nothing is claimed of the clone.
pub assume_specification<T>[ <mpsc::Sender<T> as Clone>::clone ](queue: &mpsc::Sender<T>) -> (other:
    mpsc::Sender<T>);

} // verus!
