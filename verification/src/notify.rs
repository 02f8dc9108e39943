//! The change-notification channel: one value, the latest event counter,
//! broadcast to whoever subscribed.
//!
//! The channel belongs to `tokio::sync::watch`. Its two types are opaque
//! here. What is said of them is said through two names: what a channel
//! holds, and what a receiver showed when it was made. Nothing below is
//! proved; each claim is what the source of `tokio` shows.

use vstd::prelude::*;

verus! {

/// `tokio::sync::watch::Sender`, the sending half of a channel, as an
/// opaque type.
#[verifier::external_type_specification]
#[verifier::external_body]
#[verifier::reject_recursive_types(T)]
pub struct ExWatchSender<T>(tokio::sync::watch::Sender<T>);

/// `tokio::sync::watch::Receiver`, a receiving half of a channel, as an
/// opaque type.
#[verifier::external_type_specification]
#[verifier::external_body]
#[verifier::reject_recursive_types(T)]
pub struct ExWatchReceiver<T>(tokio::sync::watch::Receiver<T>);

/// What the channel behind `sender` holds. A watch channel keeps one value,
/// the one that was put in last, so the sequence has one element.
pub uninterp spec fn held(sender: tokio::sync::watch::Sender<u64>) -> Seq<u64>;

/// What the channel held at the moment `receiver` was made from it, which is
/// what the receiver shows until the next value is put in.
pub uninterp spec fn first_shown(receiver: tokio::sync::watch::Receiver<u64>) -> Seq<u64>;

/// Makes the sending half of a channel with `tokio::sync::watch::Sender::new`,
/// which stores `initial` as the channel's value: the channel holds
/// `initial`.
#[verifier::external_body]
pub(crate) fn open_channel(initial: u64) -> (sender: tokio::sync::watch::Sender<u64>)
    ensures
        held(sender) == seq![initial],
{
    tokio::sync::watch::Sender::new(initial)
}

/// Puts `value` into the channel with `tokio::sync::watch::Sender::send_replace`,
/// which swaps it for the value that was there, whether or not any receiver
/// exists, and wakes the receivers: the channel holds `value` afterwards.
/// The sender is taken by `&mut`, and is never cloned, so that nothing else
/// puts a value in between. The call waits while a receiver holds a borrow
/// of the value.
#[verifier::external_body]
pub(crate) fn publish(sender: &mut tokio::sync::watch::Sender<u64>, value: u64)
    ensures
        held(*final(sender)) == seq![value],
{
    sender.send_replace(value);
}

/// Makes a new receiving half with `tokio::sync::watch::Sender::subscribe`.
/// The receiver shares the channel's state with the sender, so it shows
/// what the channel holds at this moment.
#[verifier::external_body]
pub(crate) fn attach(
    sender: &tokio::sync::watch::Sender<u64>,
) -> (receiver: tokio::sync::watch::Receiver<u64>)
    ensures
        first_shown(receiver) == held(*sender),
{
    sender.subscribe()
}

} // verus!
