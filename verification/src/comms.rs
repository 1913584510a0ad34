//! The string channels through which the prompt and the bot pass lines.

use std::sync::mpsc::{Receiver, Sender};
use vstd::prelude::*;

verus! {

/// std's `mpsc::Sender`, carried through opaque.
#[verifier::external_type_specification]
#[verifier::external_body]
#[verifier::reject_recursive_types(T)]
pub struct ExSender<T>(Sender<T>);

/// std's `mpsc::Receiver`, carried through opaque.
#[verifier::external_type_specification]
#[verifier::external_body]
#[verifier::reject_recursive_types(T)]
pub struct ExReceiver<T>(Receiver<T>);

/// The channel that a sending end belongs to.
pub uninterp spec fn sender_channel(s: Sender<String>) -> int;

/// The channel that a receiving end belongs to.
pub uninterp spec fn receiver_channel(r: Receiver<String>) -> int;

/// Opens a channel of strings with std's `mpsc::channel`.
///
/// Trusted: std documents that it returns the sending and the receiving half
/// of one new channel, so what is sent on the first arrives at the second;
/// the contract says the two ends belong to the same channel. The channel's
/// contents are not modelled.
#[verifier::external_body]
pub(crate) fn string_channel() -> (r: (Sender<String>, Receiver<String>))
    ensures
        sender_channel(r.0) == receiver_channel(r.1),
{
    std::sync::mpsc::channel()
}

} // verus!
