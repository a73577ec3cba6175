//! The calls into `crossbeam_channel` and `std::sync` that the channels of
//! this crate make. Nothing here is proved: each item states what the
//! called code is trusted to do.

use vstd::prelude::*;

use crossbeam_channel::{Receiver, Sender};
use crossbeam_channel::RecvError as WaitError;
use crossbeam_channel::TrySendError as OfferError;
use std::sync::{Arc, Mutex, MutexGuard};

use super::errors::TryRecvError;

verus! {

/// `crossbeam_channel::Sender`, carried through opaquely.
#[verifier::external_type_specification]
#[verifier::external_body]
#[verifier::reject_recursive_types(T)]
pub struct ExSender<T>(Sender<T>);

/// `crossbeam_channel::Receiver`, carried through opaquely.
#[verifier::external_type_specification]
#[verifier::external_body]
#[verifier::reject_recursive_types(T)]
pub struct ExReceiver<T>(Receiver<T>);

/// `crossbeam_channel::RecvError`, carried through opaquely.
#[verifier::external_type_specification]
#[verifier::external_body]
pub struct ExRecvError(WaitError);

/// `crossbeam_channel::TrySendError`, carried through opaquely.
#[verifier::external_type_specification]
#[verifier::external_body]
#[verifier::reject_recursive_types(T)]
pub struct ExTrySendError<T>(OfferError<T>);

/// `std::sync::Mutex`, carried through opaquely.
#[verifier::external_type_specification]
#[verifier::external_body]
#[verifier::reject_recursive_types(T)]
pub struct ExMutex<T: ?Sized>(Mutex<T>);

/// `std::sync::MutexGuard`, carried through opaquely.
#[verifier::external_type_specification]
#[verifier::external_body]
#[verifier::reject_recursive_types(T)]
pub struct ExMutexGuard<'a, T: ?Sized + 'a>(MutexGuard<'a, T>);

/// `std::sync::Mutex::new`: makes a lock that holds `t`. Nothing is claimed
/// of the result, whose contents other threads may change.
pub assume_specification<T>[ Mutex::<T>::new ](t: T) -> Mutex<T>;

/// The capacity that `crossbeam_channel::Receiver::capacity` reports for
/// the channel of `rx`: `None` for a channel without a limit, else the
/// number of messages it holds at most. It is fixed when the channel is
/// made.
pub uninterp spec fn receiver_capacity(rx: Receiver<u64>) -> Option<usize>;

/// Calls `crossbeam_channel::unbounded`, which makes a new channel without
/// a capacity limit. Claimed: the receiving end reports no capacity, as
/// the crate documents for `capacity`. Nothing else is claimed.
#[verifier::external_body]
pub(crate) fn new_unbounded() -> (chan: (Sender<u64>, Receiver<u64>))
    ensures
        receiver_capacity(chan.1) is None,
{
    crossbeam_channel::unbounded()
}

/// Calls `crossbeam_channel::bounded`, which makes a new channel that holds
/// at most `cap` messages. The crate panics when `cap + 1`, rounded up to a
/// power of two, doubled, overflows; `requires` leaves those capacities
/// out. Whether the machine can allocate `cap` slots is not stated.
/// Claimed: the receiving end reports capacity `cap`, as the crate
/// documents for `capacity` (zero for a rendezvous channel).
#[verifier::external_body]
pub(crate) fn new_bounded(cap: usize) -> (chan: (Sender<u64>, Receiver<u64>))
    requires
        cap <= usize::MAX / 4,
    ensures
        receiver_capacity(chan.1) == Some(cap),
{
    crossbeam_channel::bounded(cap)
}

/// Calls `crossbeam_channel::Sender::try_send`. Whether the message goes
/// through depends on the receiving side at that moment; nothing is claimed.
#[verifier::external_body]
pub(crate) fn offer<T>(tx: &Sender<T>, msg: T) -> Result<(), OfferError<T>> {
    tx.try_send(msg)
}

/// Calls `crossbeam_channel::Receiver::try_recv` and tells its two error
/// variants apart. What comes back depends on the senders; nothing is
/// claimed.
#[verifier::external_body]
pub(crate) fn poll<T>(rx: &Receiver<T>) -> Result<T, TryRecvError> {
    match rx.try_recv() {
        Ok(v) => Ok(v),
        Err(crossbeam_channel::TryRecvError::Empty) => Err(TryRecvError::Empty),
        Err(crossbeam_channel::TryRecvError::Disconnected) => Err(TryRecvError::Disconnected),
    }
}

/// Calls `crossbeam_channel::Receiver::recv`, which waits for a message
/// and fails only when the channel is empty and disconnected. What comes
/// back depends on the senders; nothing is claimed.
#[verifier::external_body]
pub(crate) fn wait<T>(rx: &Receiver<T>) -> Result<T, WaitError> {
    rx.recv()
}

/// Calls `crossbeam_channel::Receiver::try_iter` and collects the messages
/// that are pending now, in the order the channel hands them out. Which
/// messages those are depends on the senders; nothing is claimed.
#[verifier::external_body]
pub(crate) fn drain<T>(rx: &Receiver<T>) -> Vec<T> {
    rx.try_iter().collect()
}

/// Calls `Clone::clone` on an `Arc`, which makes another pointer to the
/// same allocation. Claimed: the new pointer refers to the same lock.
#[verifier::external_body]
pub(crate) fn share_registry<T>(registry: &Arc<Mutex<Vec<Sender<T>>>>) -> (shared: Arc<
    Mutex<Vec<Sender<T>>>,
>)
    ensures
        shared == *registry,
{
    Arc::clone(registry)
}

/// Calls `std::sync::Mutex::lock`. A lock poisoned by a panic elsewhere is
/// taken over as it stands. Nothing is claimed of the contents, which other
/// threads change between locks. The call waits for ever when this thread
/// already holds the lock; no caller here locks twice.
#[verifier::external_body]
pub(crate) fn lock_registry<'a, T>(m: &'a Mutex<Vec<Sender<T>>>) -> MutexGuard<'a, Vec<Sender<T>>> {
    match m.lock() {
        Ok(guard) => guard,
        Err(poisoned) => poisoned.into_inner(),
    }
}

/// Reaches the vector behind a held lock through `DerefMut::deref_mut`.
/// Nothing is claimed of what it holds.
#[verifier::external_body]
pub(crate) fn registered_mut<'a, 'b, T>(guard: &'a mut MutexGuard<'b, Vec<Sender<T>>>) -> &'a mut Vec<Sender<T>> {
    &mut **guard
}

/// The two ends of one unbounded channel, kept together. While a value of
/// this type lives it holds a sender of its own channel, so that channel
/// never disconnects. Only `open_own_channel` makes one.
#[verifier::external_body]
#[verifier::reject_recursive_types(T)]
pub struct OwnChannel<T> {
    tx: Sender<T>,
    rx: Receiver<T>,
}

/// Calls `crossbeam_channel::unbounded` and keeps both ends together.
#[verifier::external_body]
pub(crate) fn open_own_channel<T>() -> OwnChannel<T> {
    let (tx, rx) = crossbeam_channel::unbounded();
    OwnChannel { tx, rx }
}

/// Calls `Clone::clone` on the sender of an own channel: another sender
/// into that channel. Nothing is claimed of it.
#[verifier::external_body]
pub(crate) fn own_sender<T>(chan: &OwnChannel<T>) -> Sender<T> {
    chan.tx.clone()
}

/// Calls `crossbeam_channel::Receiver::try_recv` on an own channel.
/// Claimed: it never reports the channel disconnected, since `chan` holds a
/// sender of it for as long as the call lasts. Whether a message is there
/// depends on the senders.
#[verifier::external_body]
pub(crate) fn own_poll<T>(chan: &OwnChannel<T>) -> (r: Result<T, TryRecvError>)
    ensures
        !(r matches Err(TryRecvError::Disconnected)),
{
    match chan.rx.try_recv() {
        Ok(v) => Ok(v),
        Err(crossbeam_channel::TryRecvError::Empty) => Err(TryRecvError::Empty),
        Err(crossbeam_channel::TryRecvError::Disconnected) => Err(TryRecvError::Disconnected),
    }
}

/// Calls `crossbeam_channel::Receiver::recv` on an own channel, which
/// waits for a message. Claimed: it returns one, since `recv` fails only on
/// an empty, disconnected channel and `chan` holds a sender of it. Which
/// message comes depends on the senders.
#[verifier::external_body]
pub(crate) fn own_wait<T>(chan: &OwnChannel<T>) -> (r: Result<T, WaitError>)
    ensures
        r is Ok,
{
    chan.rx.recv()
}

} // verus!
