//! The outbound channel of a peer, as `futures_channel::mpsc` provides it.
//!
//! What stands here is taken on trust from that crate: the types that the
//! relay passes around without looking inside, and the two functions that
//! it calls. Neither function is given a promise about its result.

use futures_channel::mpsc::{TrySendError, UnboundedReceiver, UnboundedSender};
use vstd::prelude::*;

verus! {

/// `futures_channel::mpsc::UnboundedSender`: the producing end of an
/// unbounded channel. Nothing is known of what is inside. When the last
/// producing end of a channel is dropped, the channel closes.
#[verifier::external_type_specification]
#[verifier::external_body]
#[verifier::reject_recursive_types(T)]
pub struct ExUnboundedSender<T>(UnboundedSender<T>);

/// `futures_channel::mpsc::UnboundedReceiver`: the consuming end of an
/// unbounded channel. Nothing is known of what is inside.
#[verifier::external_type_specification]
#[verifier::external_body]
#[verifier::reject_recursive_types(T)]
pub struct ExUnboundedReceiver<T>(UnboundedReceiver<T>);

/// `futures_channel::mpsc::TrySendError`: what a send returns when the
/// channel did not take the message. Nothing is known of what is inside.
#[verifier::external_type_specification]
#[verifier::external_body]
#[verifier::reject_recursive_types(T)]
pub struct ExTrySendError<T>(TrySendError<T>);

/// `futures_channel::mpsc::unbounded` makes a new channel and returns its
/// producing and its consuming end. All that is taken on trust is that it
/// returns; nothing is claimed of the two ends.
pub assume_specification<T>[ futures_channel::mpsc::unbounded::<T> ]() -> (ends: (
    UnboundedSender<T>,
    UnboundedReceiver<T>,
));

/// `UnboundedSender::unbounded_send` puts a message on the channel without
/// waiting, or returns an error when the channel is closed. Whether it is
/// closed lies with the consuming end, so nothing is claimed of the result.
/// What is taken on trust is that the call returns: its one assertion is
/// on the number of messages that the channel holds, and fails only at a
/// number that no memory can hold.
pub assume_specification<T>[ UnboundedSender::<T>::unbounded_send ](
    sender: &UnboundedSender<T>,
    msg: T,
) -> (sent: Result<(), TrySendError<T>>);

} // verus!
