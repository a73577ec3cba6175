//! A receiver that hands out the largest pending message first.

use vstd::prelude::*;
use vstd::multiset::Multiset;
use vstd::seq_lib::{to_multiset_build, to_multiset_contains, to_multiset_insert};

use crossbeam_channel::{Receiver, Sender};

use super::errors::{RecvError, TryRecvError};
use super::outside::{drain, new_bounded, new_unbounded, poll, receiver_capacity, wait};

verus! {

broadcast use {vstd::multiset::group_multiset_axioms, vstd::seq_lib::group_to_multiset_ensures};

/// The sequence never decreases.
pub open spec fn ascending(s: Seq<u64>) -> bool {
    forall|i: int, j: int| 0 <= i <= j < s.len() ==> s[i] <= s[j]
}

/// `v` is in `m`, and nothing in `m` is larger.
pub open spec fn is_max_of(m: Multiset<u64>, v: u64) -> bool {
    &&& m.contains(v)
    &&& forall|x: u64| m.contains(x) ==> x <= v
}

/// The outcome of taking from a priority receiver whose buffer held
/// `before`, when the messages `ready` were waiting on the channel: if
/// anything was there, the largest of it is `got` and the rest stays
/// buffered; else the buffer is left empty.
pub open spec fn takes_largest(
    before: Multiset<u64>,
    ready: Multiset<u64>,
    after: Multiset<u64>,
    got: Option<u64>,
) -> bool {
    let all = before.add(ready);
    if all.len() > 0 {
        &&& got matches Some(v)
        &&& is_max_of(all, got.unwrap())
        &&& after == all.remove(got.unwrap())
    } else {
        &&& got is None
        &&& after.len() == 0
    }
}

/// What a receive can have done: for some messages `ready` found waiting
/// on the channel, the buffer step went from `before` to `after`, and if it
/// handed out a message, that message is the `result`. When it handed out
/// none, the result came from the channel itself.
pub open spec fn receive_outcome(before: Multiset<u64>, after: Multiset<u64>, result: Option<u64>) -> bool {
    exists|ready: Multiset<u64>, got: Option<u64>|
        #[trigger] takes_largest(before, ready, after, got) && (got matches Some(v) ==> result
            == Some(v))
}

proof fn lemma_outcome_of_step(before: Multiset<u64>, ready: Multiset<u64>, after: Multiset<u64>, got: Option<u64>)
    requires
        takes_largest(before, ready, after, got),
    ensures
        forall|result: Option<u64>| (got matches Some(v) ==> result == Some(v)) ==> receive_outcome(before, after, result),
        before.len() > 0 ==> got is Some && forall|x: u64| before.contains(x) ==> x <= got.unwrap(),
        got is None ==> before.len() == 0 && after.len() == 0,
{
    assert(before.add(ready).len() == before.len() + ready.len());
    assert forall|result: Option<u64>| (got matches Some(v) ==> result == Some(v)) implies receive_outcome(before, after, result) by {
        assert(takes_largest(before, ready, after, got));
    }
    if before.len() > 0 {
        let v = got.unwrap();
        assert forall|x: u64| before.contains(x) implies x <= v by {
            assert(before.add(ready).count(x) == before.count(x) + ready.count(x));
            assert(before.add(ready).contains(x));
        }
    }
}

/// A receiver that buffers the messages of a channel and always hands out
/// the largest one it holds. Messages are `u64` priorities, larger first;
/// the buffer is a vector kept in ascending order.
pub struct PriorityReceiver {
    inner: Receiver<u64>,
    pending: Vec<u64>,
}

impl View for PriorityReceiver {
    type V = Multiset<u64>;

    /// The messages taken off the channel and not yet handed out.
    closed spec fn view(&self) -> Multiset<u64> {
        self.pending@.to_multiset()
    }
}

/// Creates a channel without a capacity limit whose receiving side hands
/// out the largest pending message first.
pub fn unbounded() -> (chan: (Sender<u64>, PriorityReceiver))
    ensures
        chan.1@ == Multiset::<u64>::empty(),
        receiver_capacity(chan.1.channel()) is None,
{
    let (tx, rx) = new_unbounded();
    (tx, PriorityReceiver::new(rx))
}

/// Creates a channel that holds at most `cap` messages, whose receiving
/// side hands out the largest pending message first. Messages moved into
/// the receiver's buffer no longer count against the capacity.
pub fn bounded(cap: usize) -> (chan: (Sender<u64>, PriorityReceiver))
    requires
        cap <= usize::MAX / 4,
    ensures
        chan.1@ == Multiset::<u64>::empty(),
        receiver_capacity(chan.1.channel()) == Some(cap),
{
    let (tx, rx) = new_bounded(cap);
    (tx, PriorityReceiver::new(rx))
}

impl PriorityReceiver {
    #[verifier::type_invariant]
    spec fn pending_ascending(&self) -> bool {
        ascending(self.pending@)
    }

    /// The receiving side of the channel this receiver drains.
    pub closed spec fn channel(&self) -> Receiver<u64> {
        self.inner
    }

    /// Wraps the receiving side of a channel, with nothing buffered yet.
    pub fn new(inner: Receiver<u64>) -> (r: Self)
        ensures
            r@ == Multiset::<u64>::empty(),
            r.channel() == inner,
    {
        let r = PriorityReceiver { inner, pending: Vec::new() };
        proof {
            assert(r.pending@ =~= Seq::<u64>::empty());
        }
        r
    }

    /// Buffers one message, keeping the buffer in ascending order.
    fn buffer(&mut self, v: u64)
        ensures
            final(self)@ == old(self)@.insert(v),
            final(self).channel() == old(self).channel(),
    {
        proof {
            use_type_invariant(&*self);
        }
        let n = self.pending.len();
        let mut k: usize = 0;
        while k < n && self.pending[k] <= v
            invariant
                n == self.pending@.len(),
                k <= n,
                forall|j: int| 0 <= j < k ==> self.pending@[j] <= v,
            decreases n - k,
        {
            k = k + 1;
        }
        proof {
            use_type_invariant(&*self);
            let s = self.pending@;
            let t = s.insert(k as int, v);
            assert forall|i: int, j: int| 0 <= i <= j < t.len() implies t[i] <= t[j] by {
                if j < k {
                } else if j == k {
                } else if i < k {
                    assert(s[i] <= v);
                    assert(v < s[k as int] || k == n);
                } else if i == k {
                    assert(s[k as int] > v);
                    assert(s[k as int] <= s[j - 1]);
                } else {
                }
            }
            to_multiset_insert(s, k as int, v);
        }
        let mut items: Vec<u64> = Vec::new();
        std::mem::swap(&mut items, &mut self.pending);
        items.insert(k, v);
        self.pending = items;
    }

    /// Buffers every message of `ready`.
    fn buffer_all(&mut self, ready: Vec<u64>)
        ensures
            final(self)@ == old(self)@.add(ready@.to_multiset()),
            final(self).channel() == old(self).channel(),
    {
        let ghost before = self@;
        proof {
            assert(ready@.take(0) =~= Seq::<u64>::empty());
            assert(before.add(Multiset::empty()) =~= before);
        }
        let mut i: usize = 0;
        while i < ready.len()
            invariant
                i <= ready@.len(),
                self@ == before.add(ready@.take(i as int).to_multiset()),
                self.channel() == old(self).channel(),
            decreases ready@.len() - i,
        {
            proof {
                assert(ready@.take(i + 1) =~= ready@.take(i as int).push(ready@[i as int]));
                to_multiset_build(ready@.take(i as int), ready@[i as int]);
            }
            self.buffer(ready[i]);
            proof {
                assert(self@ =~= before.add(ready@.take(i + 1).to_multiset()));
            }
            i = i + 1;
        }
        proof {
            assert(ready@.take(ready@.len() as int) =~= ready@);
        }
    }

    /// Hands out the largest buffered message, if any.
    fn take_largest(&mut self) -> (got: Option<u64>)
        ensures
            final(self).channel() == old(self).channel(),
            old(self)@.len() == 0 ==> got is None && final(self)@ == old(self)@,
            old(self)@.len() > 0 ==> {
                &&& got matches Some(v)
                &&& is_max_of(old(self)@, got.unwrap())
                &&& final(self)@ == old(self)@.remove(got.unwrap())
            },
    {
        proof {
            use_type_invariant(&*self);
        }
        let ghost s = self.pending@;
        proof {
            if s.len() > 0 {
                let last = s[s.len() - 1];
                assert(s =~= s.drop_last().push(last));
                to_multiset_build(s.drop_last(), last);
                assert(s.drop_last().to_multiset().insert(last).remove(last) =~= s.drop_last().to_multiset());
                to_multiset_contains(s, last);
                assert(s.contains(last));
                assert forall|x: u64| s.to_multiset().contains(x) implies x <= last by {
                    to_multiset_contains(s, x);
                    let j = choose|j: int| 0 <= j < s.len() && s[j] == x;
                }
                assert(ascending(s.drop_last()));
            } else {
                assert(s =~= Seq::<u64>::empty());
            }
        }
        let mut items: Vec<u64> = Vec::new();
        std::mem::swap(&mut items, &mut self.pending);
        let got = items.pop();
        proof {
            if s.len() > 0 {
                assert(items@ == s.drop_last());
                assert(got == Some(s[s.len() - 1]));
            }
        }
        self.pending = items;
        got
    }

    /// Moves the messages `ready` into the buffer and hands out the
    /// largest buffered message; `None` when there is none at all.
    pub fn take_largest_with(&mut self, ready: Vec<u64>) -> (got: Option<u64>)
        ensures
            takes_largest(old(self)@, ready@.to_multiset(), final(self)@, got),
            final(self).channel() == old(self).channel(),
    {
        let ghost before = self@;
        let ghost arrived = ready@.to_multiset();
        self.buffer_all(ready);
        proof {
            assert(before.add(arrived).len() == before.len() + arrived.len());
        }
        let got = self.take_largest();
        proof {
            if before.add(arrived).len() == 0 {
                assert(got is None);
            }
        }
        got
    }

    /// Moves every message now pending on the channel into the buffer and
    /// hands out the largest buffered one; with nothing buffered, waits
    /// for the next message on the channel. Fails only when nothing is
    /// buffered and the channel is empty and disconnected.
    pub fn recv(&mut self) -> (r: Result<u64, RecvError>)
        ensures
            receive_outcome(
                old(self)@,
                final(self)@,
                match r {
                    Ok(v) => Some(v),
                    Err(_) => None,
                },
            ),
            old(self)@.len() > 0 ==> (r matches Ok(v) && forall|x: u64|
                old(self)@.contains(x) ==> x <= v),
            r is Err ==> old(self)@.len() == 0 && final(self)@.len() == 0,
            final(self).channel() == old(self).channel(),
    {
        let ghost before = self@;
        let ready = drain(&self.inner);
        let ghost arrived = ready@.to_multiset();
        let got = self.take_largest_with(ready);
        proof {
            lemma_outcome_of_step(before, arrived, self@, got);
        }
        match got {
            Some(v) => Ok(v),
            None => match wait(&self.inner) {
                Ok(v) => Ok(v),
                Err(_) => Err(RecvError),
            },
        }
    }

    /// Moves every message now pending on the channel into the buffer and
    /// hands out the largest buffered one; with nothing buffered, takes a
    /// message from the channel only if one is there right now.
    pub fn try_recv(&mut self) -> (r: Result<u64, TryRecvError>)
        ensures
            receive_outcome(
                old(self)@,
                final(self)@,
                match r {
                    Ok(v) => Some(v),
                    Err(_) => None,
                },
            ),
            old(self)@.len() > 0 ==> (r matches Ok(v) && forall|x: u64|
                old(self)@.contains(x) ==> x <= v),
            r is Err ==> old(self)@.len() == 0 && final(self)@.len() == 0,
            final(self).channel() == old(self).channel(),
    {
        let ghost before = self@;
        let ready = drain(&self.inner);
        let ghost arrived = ready@.to_multiset();
        let got = self.take_largest_with(ready);
        proof {
            lemma_outcome_of_step(before, arrived, self@, got);
        }
        match got {
            Some(v) => Ok(v),
            None => poll(&self.inner),
        }
    }
}

/// The receiving operations that plain and priority receivers share.
pub trait ReceiverExt<T>: Send + Sync {
    /// Takes a message, waiting for one if needed.
    fn recv(&mut self) -> Result<T, RecvError>;

    /// Takes a message only if one can be had without waiting.
    fn try_recv(&mut self) -> Result<T, TryRecvError>;
}

impl ReceiverExt<u64> for PriorityReceiver {
    fn recv(&mut self) -> (r: Result<u64, RecvError>)
        ensures
            receive_outcome(
                old(self)@,
                final(self)@,
                match r {
                    Ok(v) => Some(v),
                    Err(_) => None,
                },
            ),
            old(self)@.len() > 0 ==> (r matches Ok(v) && forall|x: u64|
                old(self)@.contains(x) ==> x <= v),
            r is Err ==> old(self)@.len() == 0 && final(self)@.len() == 0,
            final(self).channel() == old(self).channel(),
    {
        PriorityReceiver::recv(self)
    }

    fn try_recv(&mut self) -> (r: Result<u64, TryRecvError>)
        ensures
            receive_outcome(
                old(self)@,
                final(self)@,
                match r {
                    Ok(v) => Some(v),
                    Err(_) => None,
                },
            ),
            old(self)@.len() > 0 ==> (r matches Ok(v) && forall|x: u64|
                old(self)@.contains(x) ==> x <= v),
            r is Err ==> old(self)@.len() == 0 && final(self)@.len() == 0,
            final(self).channel() == old(self).channel(),
    {
        PriorityReceiver::try_recv(self)
    }
}

impl<T: Send + Sync> ReceiverExt<T> for Receiver<T> {
    fn recv(&mut self) -> Result<T, RecvError> {
        match wait(self) {
            Ok(v) => Ok(v),
            Err(_) => Err(RecvError),
        }
    }

    fn try_recv(&mut self) -> Result<T, TryRecvError> {
        poll(self)
    }
}

/// Taking twice from the same buffer, with nothing arriving in between,
/// never yields a larger value the second time.
pub proof fn law_successive_maxima(all: Multiset<u64>, first: u64, second: u64)
    requires
        is_max_of(all, first),
        is_max_of(all.remove(first), second),
    ensures
        second <= first,
{
    if second != first {
        assert(all.remove(first).count(second) == all.count(second));
        assert(all.contains(second));
    }
}

/// `out` is what successive receives hand out from a buffer holding
/// `pending` when nothing more arrives on the channel: each step takes the
/// largest of what is left, as `take_largest_with` does with no new
/// messages.
pub open spec fn takes_in_turn(pending: Multiset<u64>, out: Seq<u64>) -> bool
    decreases out.len(),
{
    if out.len() == 0 {
        true
    } else {
        &&& takes_largest(pending, Multiset::empty(), pending.remove(out[0]), Some(out[0]))
        &&& takes_in_turn(pending.remove(out[0]), out.drop_first())
    }
}

/// Receiving as many times as there are buffered messages, with nothing
/// arriving in between, hands out exactly those messages, each as often as
/// it was sent, from the largest down.
pub proof fn law_receives_descend(pending: Multiset<u64>, out: Seq<u64>)
    requires
        takes_in_turn(pending, out),
        out.len() == pending.len(),
    ensures
        out.to_multiset() == pending,
        forall|i: int, j: int| 0 <= i <= j < out.len() ==> out[j] <= out[i],
    decreases out.len(),
{
    broadcast use vstd::seq_lib::group_to_multiset_ensures;

    if out.len() == 0 {
        assert(pending =~= Multiset::empty());
        assert(out.to_multiset() =~= Multiset::empty());
    } else {
        let first = out[0];
        let rest = pending.remove(first);
        assert(pending.add(Multiset::empty()) =~= pending);
        assert(pending.contains(first));
        assert(rest.len() == pending.len() - 1);
        law_receives_descend(rest, out.drop_first());
        assert(out.remove(0) =~= out.drop_first());
        assert(out.remove(0).to_multiset() =~= out.to_multiset().remove(first));
        assert(out.to_multiset().contains(first));
        assert(out.to_multiset() =~= pending) by {
            assert forall|x: u64| #[trigger] out.to_multiset().count(x) == pending.count(x) by {
                if x == first {
                    assert(out.to_multiset().remove(first).count(x) == out.to_multiset().count(x) - 1);
                    assert(pending.remove(first).count(x) == pending.count(x) - 1);
                } else {
                    assert(out.to_multiset().remove(first).count(x) == out.to_multiset().count(x));
                    assert(pending.remove(first).count(x) == pending.count(x));
                }
            }
        }
        assert forall|i: int, j: int| 0 <= i <= j < out.len() implies out[j] <= out[i] by {
            if i == 0 {
                let y = out[j];
                assert(out.to_multiset().contains(y)) by {
                    assert(out.contains(y));
                }
                assert(pending.contains(y));
            } else {
                assert(out[i] == out.drop_first()[i - 1]);
                assert(out[j] == out.drop_first()[j - 1]);
            }
        }
    }
}

} // verus!
