//! A broadcast channel, and a watcher that broadcasts only values that
//! differ from the last one it broadcast.

use vstd::prelude::*;
use vstd::laws_eq::obeys_concrete_eq;
use vstd::pervasive::cloned;
use vstd::std_specs::cmp::PartialEqSpec;

use crossbeam_channel::Sender;
use crossbeam_channel::TrySendError as OfferError;
use std::sync::{Arc, Mutex};

use super::errors::{RecvError, TrySendError};
use super::outside::{
    lock_registry, offer, open_own_channel, own_poll, own_sender, own_wait, registered_mut,
    share_registry, OwnChannel,
};

verus! {

/// The items whose flag is set, in their order: the listeners that a
/// broadcast keeps, given which deliveries went through.
pub open spec fn kept_by<A>(items: Seq<A>, delivered: Seq<bool>) -> Seq<A>
    decreases items.len(),
{
    if items.len() == 0 {
        Seq::empty()
    } else {
        let n = items.len() - 1;
        let init = kept_by(items.take(n), delivered.take(n));
        if delivered[n] {
            init.push(items[n])
        } else {
            init
        }
    }
}

/// Keeps the senders whose delivery went through, in their order, and
/// drops the others.
pub fn keep_delivered<T>(senders: Vec<Sender<T>>, delivered: &Vec<bool>) -> (kept: Vec<Sender<T>>)
    requires
        senders@.len() == delivered@.len(),
    ensures
        kept@ == kept_by(senders@, delivered@),
{
    let ghost all = senders@;
    let n = delivered.len();
    let mut rest = senders;
    let mut kept: Vec<Sender<T>> = Vec::new();
    let mut i: usize = 0;
    while i < n
        invariant
            n == delivered@.len(),
            all.len() == n,
            i <= n,
            rest@ == all.subrange(i as int, n as int),
            kept@ == kept_by(all.take(i as int), delivered@.take(i as int)),
        decreases n - i,
    {
        let s = rest.remove(0);
        proof {
            assert(all.take(i + 1).take(i as int) =~= all.take(i as int));
            assert(delivered@.take(i + 1).take(i as int) =~= delivered@.take(i as int));
            assert(all.take(i + 1)[i as int] == s);
        }
        if delivered[i] {
            kept.push(s);
        }
        i = i + 1;
        proof {
            assert(rest@ =~= all.subrange(i as int, n as int));
        }
    }
    proof {
        assert(all.take(n as int) =~= all);
        assert(delivered@.take(n as int) =~= delivered@);
    }
    kept
}

/// Where the offers of a broadcast went through: one flag per outcome,
/// set exactly when that offer succeeded.
pub open spec fn went_through<T>(outcomes: Seq<Result<(), OfferError<T>>>) -> Seq<bool> {
    Seq::new(outcomes.len(), |i: int| outcomes[i] is Ok)
}

/// Reads off which offers of a broadcast went through.
pub fn delivered_flags<T>(outcomes: &Vec<Result<(), OfferError<T>>>) -> (flags: Vec<bool>)
    ensures
        flags@ == went_through(outcomes@),
{
    let mut flags: Vec<bool> = Vec::new();
    let mut i: usize = 0;
    while i < outcomes.len()
        invariant
            i <= outcomes@.len(),
            flags@ == went_through(outcomes@).take(i as int),
        decreases outcomes@.len() - i,
    {
        let ok = match &outcomes[i] {
            Ok(()) => true,
            Err(_) => false,
        };
        flags.push(ok);
        i = i + 1;
        proof {
            assert(flags@ =~= went_through(outcomes@).take(i as int));
        }
    }
    proof {
        assert(went_through(outcomes@).take(outcomes@.len() as int) =~= went_through(outcomes@));
    }
    flags
}

/// Offers a copy of `msg` to each sender, without waiting, and returns
/// what each offer gave back.
fn offer_each<T: Clone>(senders: &Vec<Sender<T>>, msg: &T) -> (outcomes: Vec<Result<(), OfferError<T>>>)
    ensures
        outcomes@.len() == senders@.len(),
{
    let mut outcomes: Vec<Result<(), OfferError<T>>> = Vec::new();
    let mut i: usize = 0;
    while i < senders.len()
        invariant
            i <= senders@.len(),
            outcomes@.len() == i,
        decreases senders@.len() - i,
    {
        outcomes.push(offer(&senders[i], msg.clone()));
        i = i + 1;
    }
    outcomes
}

/// Offers a copy of `msg` to each registered sender, without waiting, and
/// keeps registered exactly those whose offer went through, in their
/// order. Returns what each offer gave back.
pub fn offer_and_prune<T: Clone>(registered: &mut Vec<Sender<T>>, msg: &T) -> (outcomes: Vec<
    Result<(), OfferError<T>>,
>)
    ensures
        outcomes@.len() == old(registered)@.len(),
        final(registered)@ == kept_by(old(registered)@, went_through(outcomes@)),
{
    let outcomes = offer_each(&*registered, msg);
    let delivered = delivered_flags(&outcomes);
    let mut senders: Vec<Sender<T>> = Vec::new();
    std::mem::swap(&mut senders, registered);
    *registered = keep_delivered(senders, &delivered);
    outcomes
}

/// Synchronous MPMC broadcast channel: returns the sending side and a first
/// listener. Each clone of a listener receives every message broadcast
/// after it was made.
pub fn broadcast<T: Clone>() -> (chan: (Broadcaster<T>, Listener<T>))
    ensures
        chan.0.registry() == chan.1.registry(),
{
    let own = open_own_channel();
    let listeners = Arc::new(Mutex::new(vec![own_sender(&own)]));
    (Broadcaster::new(share_registry(&listeners)), Listener::new(own, listeners))
}

/// The sending side of a broadcast channel.
#[verifier::reject_recursive_types(T)]
pub struct Broadcaster<T> {
    listeners: Arc<Mutex<Vec<Sender<T>>>>,
}

impl<T: Clone> Clone for Broadcaster<T> {
    /// Another handle on the same broadcaster: it broadcasts to the same
    /// listeners.
    fn clone(&self) -> (c: Self)
        ensures
            c.registry() == self.registry(),
    {
        Broadcaster { listeners: share_registry(&self.listeners) }
    }
}

impl<T: Clone> Broadcaster<T> {
    /// The lock that holds the senders of the registered listeners.
    pub closed spec fn registry(&self) -> Mutex<Vec<Sender<T>>> {
        *self.listeners
    }

    fn new(listeners: Arc<Mutex<Vec<Sender<T>>>>) -> (b: Self)
        ensures
            b.registry() == *listeners,
    {
        Broadcaster { listeners }
    }

    /// Offers a copy of `msg` to every registered listener without waiting,
    /// and unregisters each listener that could not take it. Never fails.
    pub fn broadcast(&self, msg: T) -> (r: Result<(), TrySendError<T>>)
        ensures
            r is Ok,
    {
        let mut guard = lock_registry(&*self.listeners);
        let _outcomes = offer_and_prune(registered_mut(&mut guard), &msg);
        Ok(())
    }
}

/// A receiving side of a broadcast channel.
#[verifier::reject_recursive_types(T)]
pub struct Listener<T> {
    own: OwnChannel<T>,
    listeners: Arc<Mutex<Vec<Sender<T>>>>,
}

impl<T> Listener<T> {
    /// The lock that holds the senders of the registered listeners.
    pub closed spec fn registry(&self) -> Mutex<Vec<Sender<T>>> {
        *self.listeners
    }

    /// This listener's own channel.
    pub closed spec fn own_channel(&self) -> OwnChannel<T> {
        self.own
    }

    fn new(own: OwnChannel<T>, listeners: Arc<Mutex<Vec<Sender<T>>>>) -> (l: Self)
        ensures
            l.own_channel() == own,
            l.registry() == *listeners,
    {
        Listener { own, listeners }
    }

    /// Takes the next message: a pending one at once, else the next one to
    /// arrive. Never fails: the listener holds a sender of its own channel,
    /// so the channel cannot disconnect while the listener lives; with
    /// nothing pending and no broadcaster left, it waits for ever.
    pub fn listen(&self) -> (r: Result<T, RecvError>)
        ensures
            r is Ok,
    {
        match own_poll(&self.own) {
            Ok(value) => Ok(value),
            Err(_) => match own_wait(&self.own) {
                Ok(value) => Ok(value),
                Err(_) => Err(RecvError),
            },
        }
    }
}

impl<T> Clone for Listener<T> {
    /// Registers a new listener on the same broadcaster; it receives the
    /// messages broadcast from now on.
    fn clone(&self) -> (c: Self)
        ensures
            c.registry() == self.registry(),
    {
        let own = open_own_channel();
        let mut guard = lock_registry(&*self.listeners);
        registered_mut(&mut guard).push(own_sender(&own));
        Listener { own, listeners: share_registry(&self.listeners) }
    }
}

/// What `Notifier::maybe_notify` did with a value.
#[derive(Clone, Copy, Debug, PartialEq, Eq, Structural)]
pub enum NotifierStatus {
    Notified,
    DidNotNotify,
}

/// Whether a notifier whose last broadcast value is `last` broadcasts
/// `msg`: when it broadcast nothing yet, or when `msg` differs from `last`.
pub open spec fn should_notify<T: PartialEq>(last: Option<T>, msg: T) -> bool {
    match last {
        None => true,
        Some(l) => !l.eq_spec(&msg),
    }
}

/// `after` is the last broadcast value of a notifier whose last broadcast
/// value was `last`, once `msg` was offered to it: a clone of `msg` when
/// `msg` was broadcast, else `last` unchanged.
pub open spec fn notify_step<T: PartialEq + Clone>(last: Option<T>, msg: T, after: Option<T>) -> bool {
    if should_notify(last, msg) {
        after matches Some(c) && cloned(msg, c)
    } else {
        after == last
    }
}

/// Synchronous SPMC watcher channel that only broadcasts when values
/// change: returns the notifying side and a first watcher.
pub fn watcher<T: PartialEq + Clone>() -> (w: (Notifier<T>, Watcher<T>))
    ensures
        w.0.last_seen() is None,
        w.0.registry() == w.1.registry(),
{
    let (broadcaster, listener) = broadcast();
    (Notifier::new(broadcaster), Watcher::new(listener))
}

/// The notifying side of a watcher channel.
#[verifier::reject_recursive_types(T)]
pub struct Notifier<T: PartialEq + Clone> {
    broadcaster: Broadcaster<T>,
    last_seen_value: Option<T>,
}

impl<T: PartialEq + Clone> Notifier<T> {
    /// The value this notifier broadcast last, if any.
    pub closed spec fn last_seen(&self) -> Option<T> {
        self.last_seen_value
    }

    /// The registry of the broadcaster this notifier sends through.
    pub closed spec fn registry(&self) -> Mutex<Vec<Sender<T>>> {
        self.broadcaster.registry()
    }

    fn new(broadcaster: Broadcaster<T>) -> (n: Self)
        ensures
            n.last_seen() is None,
            n.registry() == broadcaster.registry(),
    {
        Notifier { broadcaster, last_seen_value: None }
    }

    /// Broadcasts `msg` unless it equals the value broadcast last, and
    /// says which it did. Never fails.
    pub fn maybe_notify(&mut self, msg: T) -> (r: Result<NotifierStatus, TrySendError<T>>)
        ensures
            match r {
                Ok(NotifierStatus::Notified) => {
                    &&& final(self).last_seen() matches Some(c)
                    &&& cloned(msg, c)
                },
                Ok(NotifierStatus::DidNotNotify) => {
                    &&& old(self).last_seen() is Some
                    &&& final(self).last_seen() == old(self).last_seen()
                },
                Err(_) => false,
            },
            T::obeys_eq_spec() ==> (r == Ok::<NotifierStatus, TrySendError<T>>(
                NotifierStatus::Notified,
            ) <==> should_notify(old(self).last_seen(), msg)),
            T::obeys_eq_spec() ==> notify_step(old(self).last_seen(), msg, final(self).last_seen()),
            final(self).registry() == old(self).registry(),
    {
        let notify = match &self.last_seen_value {
            None => true,
            Some(last) => *last != msg,
        };
        if notify {
            let copy = msg.clone();
            self.last_seen_value = Some(copy);
            match self.broadcaster.broadcast(msg) {
                Ok(()) => Ok(NotifierStatus::Notified),
                Err(e) => Err(e),
            }
        } else {
            Ok(NotifierStatus::DidNotNotify)
        }
    }
}

/// A receiving side of a watcher channel.
#[verifier::reject_recursive_types(T)]
pub struct Watcher<T> {
    listener: Listener<T>,
}

impl<T: Clone> Clone for Watcher<T> {
    /// A new watcher on the same notifier; it receives the values
    /// broadcast from now on.
    fn clone(&self) -> (c: Self)
        ensures
            c.registry() == self.registry(),
    {
        Watcher { listener: self.listener.clone() }
    }
}

impl<T> Watcher<T> {
    /// The listener this watcher takes its values from.
    pub closed spec fn listener(&self) -> Listener<T> {
        self.listener
    }

    /// The registry of the broadcaster this watcher listens to.
    pub closed spec fn registry(&self) -> Mutex<Vec<Sender<T>>> {
        self.listener.registry()
    }

    fn new(listener: Listener<T>) -> (w: Self)
        ensures
            w.listener() == listener,
    {
        Watcher { listener }
    }

    /// Takes the next value broadcast to this watcher, waiting for one if
    /// none is pending.
    pub fn watch(&self) -> (r: Result<T, RecvError>)
        ensures
            r is Ok,
    {
        self.listener.listen()
    }
}

/// Offering a notifier the value it was just offered never broadcasts,
/// whatever the first offer did, for any type whose clones compare equal
/// to what they were cloned from.
pub proof fn law_repeat_is_silent<T: PartialEq + Clone>(last: Option<T>, msg: T, after: Option<T>)
    requires
        forall|a: T, b: T| #[trigger] cloned(a, b) ==> b.eq_spec(&a),
        notify_step(last, msg, after),
    ensures
        !should_notify(after, msg),
{
    if should_notify(last, msg) {
        let c = after.unwrap();
        assert(cloned(msg, c));
    }
}

/// A notifier broadcasts every value that differs from the one it
/// broadcast last, and then holds a clone of it.
pub proof fn law_change_is_broadcast<T: PartialEq + Clone>(last: T, msg: T, after: Option<T>)
    requires
        obeys_concrete_eq::<T>(),
        last != msg,
        notify_step(Some(last), msg, after),
    ensures
        should_notify(Some(last), msg),
        after matches Some(c) && cloned(msg, c),
{
    reveal(obeys_concrete_eq);
}

/// A broadcast in which every delivery goes through keeps every listener.
pub proof fn law_all_delivered_keeps_all<A>(items: Seq<A>, delivered: Seq<bool>)
    requires
        items.len() == delivered.len(),
        forall|i: int| 0 <= i < delivered.len() ==> delivered[i],
    ensures
        kept_by(items, delivered) == items,
    decreases items.len(),
{
    if items.len() > 0 {
        let n = items.len() - 1;
        law_all_delivered_keeps_all(items.take(n), delivered.take(n));
        assert(items.take(n).push(items[n]) =~= items);
    }
}

/// A broadcast never registers a listener it did not have: what it keeps
/// is no longer than what it had, and each kept sender was among them.
pub proof fn law_kept_are_registered<A>(items: Seq<A>, delivered: Seq<bool>)
    requires
        items.len() == delivered.len(),
    ensures
        kept_by(items, delivered).len() <= items.len(),
        forall|k: int|
            0 <= k < kept_by(items, delivered).len() ==> items.contains(
                #[trigger] kept_by(items, delivered)[k],
            ),
    decreases items.len(),
{
    if items.len() > 0 {
        let n = items.len() - 1;
        law_kept_are_registered(items.take(n), delivered.take(n));
        let init = kept_by(items.take(n), delivered.take(n));
        assert forall|k: int| 0 <= k < kept_by(items, delivered).len() implies items.contains(
            #[trigger] kept_by(items, delivered)[k],
        ) by {
            if k < init.len() {
                let x = init[k];
                assert(items.take(n).contains(x));
                let j = choose|j: int| 0 <= j < items.take(n).len() && items.take(n)[j] == x;
                assert(items[j] == x);
            } else {
                assert(items[n] == kept_by(items, delivered)[k]);
            }
        }
    }
}

/// A listener whose delivery went through stays registered: the sender at
/// each position whose flag is set is among those kept.
pub proof fn law_delivered_stay<A>(items: Seq<A>, delivered: Seq<bool>, k: int)
    requires
        items.len() == delivered.len(),
        0 <= k < items.len(),
        delivered[k],
    ensures
        kept_by(items, delivered).contains(items[k]),
    decreases items.len(),
{
    let n = items.len() - 1;
    let init = kept_by(items.take(n), delivered.take(n));
    if k == n {
        assert(kept_by(items, delivered) == init.push(items[n]));
        assert(kept_by(items, delivered)[init.len() as int] == items[k]);
    } else {
        law_delivered_stay(items.take(n), delivered.take(n), k);
        assert(items.take(n)[k] == items[k]);
        let j = choose|j: int| 0 <= j < init.len() && init[j] == items[k];
        if delivered[n] {
            assert(kept_by(items, delivered)[j] == items[k]);
        }
    }
}

/// Each sender a broadcast keeps is one whose delivery went through.
pub proof fn law_kept_were_delivered<A>(items: Seq<A>, delivered: Seq<bool>, x: A)
    requires
        items.len() == delivered.len(),
        kept_by(items, delivered).contains(x),
    ensures
        exists|k: int| 0 <= k < items.len() && delivered[k] && items[k] == x,
    decreases items.len(),
{
    let n = items.len() - 1;
    let init = kept_by(items.take(n), delivered.take(n));
    if init.contains(x) {
        law_kept_were_delivered(items.take(n), delivered.take(n), x);
        let k = choose|k: int| 0 <= k < n && delivered.take(n)[k] && items.take(n)[k] == x;
        assert(delivered[k] && items[k] == x);
    } else {
        let j = choose|j: int| 0 <= j < kept_by(items, delivered).len() && kept_by(items, delivered)[j] == x;
        if delivered[n] {
            assert(j == init.len());
            assert(delivered[n] && items[n] == x);
        } else {
            assert(init.contains(x));
        }
    }
}

} // verus!
