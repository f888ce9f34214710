//! The subscription registry: the current set of subscriber egress channels,
//! indexed by a fresh, monotonically increasing id.
//!
//! Membership grows only through `join` and shrinks only through `prune`;
//! pruning rebuilds the arena (mark-then-compact) rather than deleting in
//! place.  The registry's view is the sequence of `(id, delivered)` pairs in
//! join order, where `delivered` is the (ghost) sequence of samples the
//! subscriber's channel has accepted so far.

use crate::channel::{mpsc_channel, mpsc_send_blocking, mpsc_try_send};
use crate::stage::{DeliveryOutcome, DeliveryPolicy};
use vstd::prelude::*;

verus! {

/// One subscriber: its id, the sender half of its egress channel, and the
/// ghost record of every sample that channel has accepted.
#[verifier::reject_recursive_types(T)]
struct Subscriber<T> {
    id: u64,
    sender: futures::channel::mpsc::Sender<T>,
    delivered: Ghost<Seq<T>>,
}

/// The set of current subscribers, in join order.
#[verifier::reject_recursive_types(T)]
pub struct SubscriptionRegistry<T> {
    entries: Vec<Subscriber<T>>,
    next_id: u64,
}

impl<T> View for SubscriptionRegistry<T> {
    type V = Seq<(u64, Seq<T>)>;

    /// The registry as `(id, delivered samples)` pairs, in join order.
    closed spec fn view(&self) -> Seq<(u64, Seq<T>)> {
        self.entries@.map_values(|s: Subscriber<T>| (s.id, s.delivered@))
    }
}

impl<T> SubscriptionRegistry<T> {
    /// The id the next subscriber to join will receive.
    pub closed spec fn spec_next_id(&self) -> u64 {
        self.next_id
    }

    /// Ids are strictly increasing in join order (hence unique), and all
    /// below the next id to be handed out.
    pub open spec fn wf(&self) -> bool {
        &&& forall|i: int, j: int|
            0 <= i < j < self@.len() ==> #[trigger] self@[i].0 < #[trigger] self@[j].0
        &&& forall|i: int| 0 <= i < self@.len() ==> #[trigger] self@[i].0 < self.spec_next_id()
    }

    /// An empty registry.
    pub fn new() -> (r: Self)
        ensures
            r.wf(),
            r@ == Seq::<(u64, Seq<T>)>::empty(),
            r.spec_next_id() == 0,
    {
        let r = SubscriptionRegistry { entries: Vec::new(), next_id: 0u64 };
        proof {
            assert(r@ =~= Seq::<(u64, Seq<T>)>::empty());
        }
        r
    }

    /// The number of current subscribers.
    pub fn len(&self) -> (r: usize)
        ensures
            r == self@.len(),
    {
        self.entries.len()
    }

    /// Creates a bounded egress channel of the given capacity, stores the
    /// sender under a fresh id, and returns the receiver to the caller.  The
    /// new subscriber has been delivered nothing yet.
    pub fn join(&mut self, capacity: usize) -> (r: futures::channel::mpsc::Receiver<T>)
        requires
            old(self).wf(),
            capacity < 0x3fff_ffff,
            old(self).spec_next_id() < u64::MAX,
        ensures
            final(self).wf(),
            final(self)@ == old(self)@.push((old(self).spec_next_id(), Seq::<T>::empty())),
            final(self).spec_next_id() == old(self).spec_next_id() + 1,
    {
        let (sender, receiver) = mpsc_channel(capacity);
        let sub = Subscriber { id: self.next_id, sender, delivered: Ghost(Seq::empty()) };
        self.entries.push(sub);
        self.next_id = self.next_id + 1;
        proof {
            assert(self@ =~= old(self)@.push((old(self).spec_next_id(), Seq::<T>::empty())));
        }
        receiver
    }

    /// An ordered snapshot of the current subscriber ids; delivery iterates
    /// this consistent copy rather than chasing concurrent joins.
    pub fn snapshot(&self) -> (r: Vec<u64>)
        ensures
            r@.len() == self@.len(),
            forall|i: int| 0 <= i < r@.len() ==> r@[i] == self@[i].0,
    {
        let mut ids: Vec<u64> = Vec::new();
        let mut i: usize = 0;
        while i < self.entries.len()
            invariant
                0 <= i <= self.entries@.len(),
                self.entries@.len() == self@.len(),
                ids@.len() == i,
                forall|k: int| 0 <= k < i ==> ids@[k] == self@[k].0,
            decreases self.entries@.len() - i,
        {
            ids.push(self.entries[i].id);
            i = i + 1;
        }
        ids
    }

    /// Attempts to deliver one sample to the subscriber at position `i`,
    /// blocking for capacity under `NoDrop` and skipping under `DropIfFull`.
    /// Exactly the addressed subscriber's delivered record changes, and only
    /// when the channel accepted the sample.
    pub fn send_to(&mut self, i: usize, value: T, policy: DeliveryPolicy) -> (r: DeliveryOutcome)
        requires
            old(self).wf(),
            i < old(self)@.len(),
        ensures
            final(self).wf(),
            final(self)@.len() == old(self)@.len(),
            final(self).spec_next_id() == old(self).spec_next_id(),
            forall|j: int|
                0 <= j < final(self)@.len() && j != i ==> final(self)@[j] == old(self)@[j],
            final(self)@[i as int].0 == old(self)@[i as int].0,
            r is Delivered ==> final(self)@[i as int].1 == old(self)@[i as int].1.push(value),
            !(r is Delivered) ==> final(self)@[i as int].1 == old(self)@[i as int].1,
            policy is NoDrop ==> !(r is Backpressured),
    {
        let ghost v: T = value;
        let mut sub = self.entries.remove(i);
        let r = match policy {
            DeliveryPolicy::NoDrop => mpsc_send_blocking(&mut sub.sender, value),
            DeliveryPolicy::DropIfFull => mpsc_try_send(&mut sub.sender, value),
        };
        if r == DeliveryOutcome::Delivered {
            sub.delivered = Ghost(sub.delivered@.push(v));
        }
        let ghost subview = (sub.id, sub.delivered@);
        self.entries.insert(i, sub);
        proof {
            assert(self.entries@ =~= old(self).entries@.update(i as int, self.entries@[i as int]));
            assert(self@ =~= old(self)@.update(i as int, subview));
            assert(subview.0 == old(self)@[i as int].0);
            assert forall|a: int| 0 <= a < self@.len() implies #[trigger] self@[a].0 == old(
                self,
            )@[a].0 by {}
        }
        r
    }

    /// Removes every subscriber whose id was observed closed during the last
    /// pass.  The surviving entries are exactly the old entries whose id is
    /// not listed, in unchanged order with unchanged delivery records:
    /// membership shrinks only by explicit, observed closure.
    #[verifier::loop_isolation(false)]
    pub fn prune(&mut self, closed: &Vec<u64>)
        requires
            old(self).wf(),
        ensures
            final(self).wf(),
            final(self).spec_next_id() == old(self).spec_next_id(),
            final(self)@ == old(self)@.filter(
                |p: (u64, Seq<T>)| !closed@.contains(p.0),
            ),
    {
        let ghost pre = self@;
        let ghost keep = |p: (u64, Seq<T>)| !closed@.contains(p.0);
        proof {
            reveal(Seq::filter);
            assert(pre.skip(pre.len() as int) =~= Seq::<(u64, Seq<T>)>::empty());
            assert(self@ =~= pre.take(pre.len() as int) + pre.skip(pre.len() as int).filter(keep));
        }
        let mut i: usize = self.entries.len();
        while i > 0
            invariant
                0 <= i <= pre.len(),
                self@ == pre.take(i as int) + pre.skip(i as int).filter(keep),
                forall|a: int| 0 <= a < i ==> self@[a] == pre[a],
                forall|a: int, b: int|
                    0 <= a < b < self@.len() ==> #[trigger] self@[a].0 < #[trigger] self@[b].0,
                forall|a: int| 0 <= a < self@.len() ==> #[trigger] self@[a].0 < self.spec_next_id(),
                self.spec_next_id() == old(self).spec_next_id(),
                self.entries@.len() == self@.len(),
            decreases i,
        {
            i = i - 1;
            let ghost cur = self@;
            let ghost x = pre[i as int];
            proof {
                reveal(Seq::filter);
                assert(seq![x].drop_last() =~= Seq::<(u64, Seq<T>)>::empty());
                assert(seq![x] + pre.skip(i + 1 as int) =~= pre.skip(i as int));
                Seq::filter_distributes_over_add(seq![x], pre.skip(i + 1 as int), keep);
            }
            let id = self.entries[i].id;
            proof {
                assert(cur[i as int] == pre[i as int]);
                assert(id == x.0);
            }
            if contains_u64(closed, id) {
                let _removed = self.entries.remove(i);
                proof {
                    assert(self@ =~= cur.remove(i as int));
                    assert(cur.remove(i as int) =~= pre.take(i as int) + pre.skip(
                        i + 1 as int,
                    ).filter(keep));
                    assert(!keep(x));
                    assert(pre.skip(i as int).filter(keep) =~= pre.skip(i + 1 as int).filter(keep));
                }
            } else {
                proof {
                    assert(keep(x));
                    assert(pre.skip(i as int).filter(keep) =~= seq![x] + pre.skip(
                        i + 1 as int,
                    ).filter(keep));
                    assert(self@ =~= pre.take(i as int) + pre.skip(i as int).filter(keep));
                }
            }
        }
        proof {
            assert(pre.take(0) =~= Seq::<(u64, Seq<T>)>::empty());
            assert(self@ =~= pre.skip(0).filter(keep));
            assert(pre.skip(0) =~= pre);
        }
    }
}

/// Pruning is exact: the entries kept plus the entries removed account for
/// every entry, so the registry shrinks by exactly the number of
/// subscribers whose id was listed as closed — never more, never fewer.
pub proof fn lemma_prune_is_exact<T>(view: Seq<(u64, Seq<T>)>, closed: Seq<u64>)
    ensures
        view.filter(|p: (u64, Seq<T>)| !closed.contains(p.0)).len() + view.filter(
            |p: (u64, Seq<T>)| closed.contains(p.0),
        ).len() == view.len(),
    decreases view.len(),
{
    reveal(Seq::filter);
    if view.len() == 0 {
    } else {
        lemma_prune_is_exact(view.drop_last(), closed);
    }
}

/// Linear membership test for an id list.
fn contains_u64(v: &Vec<u64>, x: u64) -> (r: bool)
    ensures
        r == v@.contains(x),
{
    let mut i: usize = 0;
    while i < v.len()
        invariant
            0 <= i <= v@.len(),
            forall|k: int| 0 <= k < i ==> v@[k] != x,
        decreases v@.len() - i,
    {
        if v[i] == x {
            assert(v@[i as int] == x);
            return true;
        }
        i = i + 1;
    }
    false
}

} // verus!
