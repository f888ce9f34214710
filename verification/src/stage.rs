//! The broadcast stage: once per scheduler invocation it reads the newly
//! available input items, delivers each to every live subscriber, classifies
//! the outcomes, prunes subscribers whose channel closed, and reports how
//! many items were retired and whether the stream is complete.

use crate::registry::SubscriptionRegistry;
use vstd::prelude::*;

verus! {

/// How delivery reacts to a subscriber whose queue is at capacity.
#[derive(Clone, Copy, PartialEq, Eq, Structural, Debug)]
pub enum DeliveryPolicy {
    /// Wait until every open subscriber has capacity: lossless per
    /// subscriber, but the slowest subscriber bounds pipeline throughput.
    NoDrop,
    /// Attempt a non-blocking send and skip subscribers that are full:
    /// bounded latency, lossy per subscriber.
    DropIfFull,
}

/// Classification of one delivery attempt to one subscriber.
#[derive(Clone, Copy, PartialEq, Eq, Structural, Debug)]
pub enum DeliveryOutcome {
    /// The subscriber's channel accepted the item.
    Delivered,
    /// The subscriber's queue is at capacity (only under `DropIfFull`).
    Backpressured,
    /// The subscriber's receiving half is gone.
    Closed,
}

/// The stage's control state.  `Finished` is terminal and is reached only
/// from `Retiring`, when upstream is exhausted and no item remains
/// undelivered.
#[derive(Clone, Copy, PartialEq, Eq, Structural, Debug)]
pub enum StageState {
    Idle,
    Delivering,
    Retiring,
    Finished,
}

/// `s` occurs inside `t` in order (possibly with gaps): what a subscriber
/// can receive of an input sequence under the lossy policy.
pub open spec fn subsequence_of<T>(s: Seq<T>, t: Seq<T>) -> bool
    decreases s.len(), t.len(),
{
    if s.len() == 0 {
        true
    } else if t.len() == 0 {
        false
    } else if s.last() == t.last() {
        subsequence_of(s.drop_last(), t.drop_last())
    } else {
        subsequence_of(s, t.drop_last())
    }
}

/// Dropping the last element of a subsequence keeps it a subsequence.
pub proof fn lemma_subsequence_drop_last<T>(s: Seq<T>, t: Seq<T>)
    requires
        subsequence_of(s, t),
        s.len() > 0,
    ensures
        subsequence_of(s.drop_last(), t),
    decreases s.len(), t.len(), 0int,
{
    if s.last() == t.last() {
        if s.len() > 1 {
            lemma_subsequence_drop_last(s.drop_last(), t.drop_last());
            lemma_subsequence_extend(s.drop_last().drop_last(), t.drop_last(), t.last());
            assert(t.drop_last().push(t.last()) =~= t);
        } else {
            assert(subsequence_of(s.drop_last(), t));
        }
    } else {
        lemma_subsequence_drop_last(s, t.drop_last());
        lemma_subsequence_extend(s.drop_last(), t.drop_last(), t.last());
        assert(t.drop_last().push(t.last()) =~= t);
    }
}

/// Extending the containing sequence keeps a subsequence a subsequence.
pub proof fn lemma_subsequence_extend<T>(s: Seq<T>, t: Seq<T>, x: T)
    requires
        subsequence_of(s, t),
    ensures
        subsequence_of(s, t.push(x)),
    decreases s.len(), t.len(), 1int,
{
    if s.len() == 0 {
    } else {
        assert(t.push(x).last() == x);
        assert(t.push(x).drop_last() =~= t);
        if s.last() == x {
            lemma_subsequence_drop_last(s, t);
        }
    }
}

/// Matching one more element on the right extends a subsequence.
pub proof fn lemma_subsequence_push_both<T>(s: Seq<T>, t: Seq<T>, x: T)
    requires
        subsequence_of(s, t),
    ensures
        subsequence_of(s.push(x), t.push(x)),
{
    assert(s.push(x).last() == t.push(x).last());
    assert(s.push(x).drop_last() =~= s);
    assert(t.push(x).drop_last() =~= t);
}

/// Every element of a filtered sequence is an element of the original one.
pub proof fn lemma_filter_membership<A>(s: Seq<A>, pred: spec_fn(A) -> bool, j: int)
    requires
        0 <= j < s.filter(pred).len(),
    ensures
        exists|k: int| 0 <= k < s.len() && s.filter(pred)[j] == s[k],
    decreases s.len(),
{
    reveal(Seq::filter);
    if s.len() == 0 {
    } else {
        let fd = s.drop_last().filter(pred);
        if pred(s.last()) {
            if j < fd.len() {
                lemma_filter_membership(s.drop_last(), pred, j);
                let k = choose|k: int| 0 <= k < s.drop_last().len() && fd[j] == s.drop_last()[k];
                assert(s.filter(pred)[j] == s[k]);
            } else {
                assert(s.filter(pred)[j] == s[s.len() - 1]);
            }
        } else {
            lemma_filter_membership(s.drop_last(), pred, j);
            let k = choose|k: int| 0 <= k < s.drop_last().len() && fd[j] == s.drop_last()[k];
            assert(s.filter(pred)[j] == s[k]);
        }
    }
}

/// The delivered record `post` extends `pre` by an order-preserving
/// subsequence of `items`: what one pass guarantees every subscriber under
/// the lossy policy.
pub open spec fn extends_with_subsequence<T>(
    post: (u64, Seq<T>),
    pre: (u64, Seq<T>),
    items: Seq<T>,
) -> bool {
    exists|s: Seq<T>| subsequence_of(s, items) && post.1 == pre.1 + s
}

/// The delivered record `post` extends `pre` by an exact prefix of `items`:
/// what one lossless pass guarantees a subscriber observed closed — items
/// in order up to the closure and nothing after it.
pub open spec fn extends_with_prefix<T>(
    post: (u64, Seq<T>),
    pre: (u64, Seq<T>),
    items: Seq<T>,
) -> bool {
    exists|k: int| 0 <= k <= items.len() && post.1 == pre.1 + items.take(k)
}

/// `id` is the id of some subscriber in `view`.
pub open spec fn holds_id<T>(view: Seq<(u64, Seq<T>)>, id: u64) -> bool {
    exists|a: int| 0 <= a < view.len() && view[a].0 == id
}

/// `id` is the id of some subscriber below `bound` whose closure flag is set.
spec fn flagged_id(ids: Seq<u64>, flags: Seq<bool>, bound: int, id: u64) -> bool {
    exists|a: int| 0 <= a < bound && flags[a] && ids[a] == id
}

/// A flagged id below one bound is flagged below any larger bound.
proof fn lemma_flagged_id_monotone(ids: Seq<u64>, flags: Seq<bool>, b1: int, b2: int, id: u64)
    requires
        flagged_id(ids, flags, b1, id),
        b1 <= b2,
    ensures
        flagged_id(ids, flags, b2, id),
{
    let a0 = choose|a: int| 0 <= a < b1 && flags[a] && ids[a] == id;
    assert(0 <= a0 < b2 && flags[a0] && ids[a0] == id);
}

/// `entry` is a surviving subscriber that was registered before the pass
/// under the same id and whose channel accepted every item of the pass, in
/// input order.
pub open spec fn survivor_received_all<T>(
    entry: (u64, Seq<T>),
    pre: Seq<(u64, Seq<T>)>,
    items: Seq<T>,
) -> bool {
    exists|a: int| 0 <= a < pre.len() && entry.0 == pre[a].0 && entry.1 == pre[a].1 + items
}

/// `entry` is a surviving subscriber that was registered before the pass
/// under the same id and whose channel accepted an order-preserving
/// subsequence of the items of the pass.
pub open spec fn survivor_received_subsequence<T>(
    entry: (u64, Seq<T>),
    pre: Seq<(u64, Seq<T>)>,
    items: Seq<T>,
) -> bool {
    exists|a: int|
        0 <= a < pre.len() && entry.0 == pre[a].0 && extends_with_subsequence(
            entry,
            pre[a],
            items,
        )
}

/// Lossless delivery composes across passes: if a subscriber's delivered
/// record grows by `xs` in one pass and by `ys` in the next, over the two
/// passes it grew by exactly `xs + ys` — so a subscriber that stays open
/// receives, tick after tick, the full input stream in order, whatever the
/// number of subscribers or items.
pub proof fn lemma_no_drop_stream_composes<T>(
    d0: Seq<T>,
    d1: Seq<T>,
    d2: Seq<T>,
    xs: Seq<T>,
    ys: Seq<T>,
)
    requires
        d1 == d0 + xs,
        d2 == d1 + ys,
    ensures
        d2 == d0 + (xs + ys),
{
    assert(d2 =~= d0 + (xs + ys));
}

/// The stage that fans the input stream out to every subscriber.
#[verifier::reject_recursive_types(T)]
pub struct BroadcastStage<T> {
    registry: SubscriptionRegistry<T>,
    policy: DeliveryPolicy,
    state: StageState,
}

impl<T> View for BroadcastStage<T> {
    type V = Seq<(u64, Seq<T>)>;

    /// The stage is viewed as its registry: `(id, delivered)` per subscriber.
    closed spec fn view(&self) -> Seq<(u64, Seq<T>)> {
        self.registry@
    }
}

impl<T> BroadcastStage<T> {
    /// The configured delivery policy.
    pub closed spec fn spec_policy(&self) -> DeliveryPolicy {
        self.policy
    }

    /// The stage's control state.
    pub closed spec fn spec_state(&self) -> StageState {
        self.state
    }

    /// The id the next subscriber to join will receive.
    pub closed spec fn spec_next_id(&self) -> u64 {
        self.registry.spec_next_id()
    }

    /// The registry invariant: subscriber ids strictly increase in join
    /// order and stay below the next id to be handed out.
    pub closed spec fn wf(&self) -> bool {
        self.registry.wf()
    }

    /// Subscribers are independent registry entries under fresh,
    /// monotonically increasing ids: pairwise distinct, so one subscriber's
    /// state never aliases another's.
    pub proof fn lemma_ids_distinct(&self)
        requires
            self.wf(),
        ensures
            forall|i: int, j: int|
                0 <= i < j < self@.len() ==> #[trigger] self@[i].0 < #[trigger] self@[j].0,
            forall|i: int, j: int|
                0 <= i < j < self@.len() ==> #[trigger] self@[i].0 != #[trigger] self@[j].0,
    {
    }
}

impl<T: Copy> BroadcastStage<T> {
    /// A stage with no subscribers, idle, under the given policy.
    pub fn new(policy: DeliveryPolicy) -> (r: Self)
        ensures
            r.wf(),
            r@ == Seq::<(u64, Seq<T>)>::empty(),
            r.spec_policy() == policy,
            r.spec_state() is Idle,
            r.spec_next_id() == 0,
    {
        BroadcastStage { registry: SubscriptionRegistry::new(), policy, state: StageState::Idle }
    }

    /// Registers a new subscriber with a bounded egress channel of the given
    /// capacity and returns the receiving half to the transport layer.  The
    /// new subscriber has been delivered nothing yet; its header is written
    /// by the transport before any live data.
    pub fn build_new_stream(&mut self, capacity: usize) -> (r: futures::channel::mpsc::Receiver<
        T,
    >)
        requires
            old(self).wf(),
            capacity < 0x3fff_ffff,
            old(self).spec_next_id() < u64::MAX,
        ensures
            final(self).wf(),
            final(self)@ == old(self)@.push((old(self).spec_next_id(), Seq::<T>::empty())),
            final(self).spec_next_id() == old(self).spec_next_id() + 1,
            final(self).spec_policy() == old(self).spec_policy(),
            final(self).spec_state() == old(self).spec_state(),
    {
        self.registry.join(capacity)
    }

    /// The number of current subscribers.
    pub fn subscriber_count(&self) -> (r: usize)
        ensures
            r == self@.len(),
    {
        self.registry.len()
    }

    /// An ordered snapshot of the current subscriber ids.
    pub fn snapshot(&self) -> (r: Vec<u64>)
        ensures
            r@.len() == self@.len(),
            forall|i: int| 0 <= i < r@.len() ==> r@[i] == self@[i].0,
    {
        self.registry.snapshot()
    }

    /// One delivery pass: for each item in input order, every subscriber not
    /// yet observed closed gets one delivery attempt under the configured
    /// policy.  Returns the ids observed closed.  No subscriber is removed
    /// here; under `NoDrop` every subscriber not observed closed has received
    /// every item in order, and one observed closed received an exact prefix
    /// of the input — nothing after its closure.  Under `DropIfFull` every
    /// subscriber received an order-preserving subsequence of the input.
    #[verifier::loop_isolation(false)]
    pub fn deliver_pass(&mut self, items: &Vec<T>) -> (closed: Vec<u64>)
        requires
            old(self).wf(),
        ensures
            final(self).wf(),
            final(self).spec_policy() == old(self).spec_policy(),
            final(self).spec_state() == old(self).spec_state(),
            final(self).spec_next_id() == old(self).spec_next_id(),
            final(self)@.len() == old(self)@.len(),
            forall|a: int|
                0 <= a < final(self)@.len() ==> #[trigger] final(self)@[a].0 == old(self)@[a].0,
            forall|k: int| 0 <= k < closed@.len() ==> holds_id(old(self)@, #[trigger] closed@[k]),
            old(self).spec_policy() is NoDrop ==> forall|a: int|
                0 <= a < final(self)@.len() && !closed@.contains(#[trigger] final(self)@[a].0)
                    ==> final(self)@[a].1 == old(self)@[a].1 + items@,
            old(self).spec_policy() is NoDrop ==> forall|a: int|
                0 <= a < final(self)@.len() && closed@.contains(#[trigger] final(self)@[a].0)
                    ==> extends_with_prefix(final(self)@[a], old(self)@[a], items@),
            old(self).spec_policy() is DropIfFull ==> forall|a: int|
                0 <= a < final(self)@.len() ==> extends_with_subsequence(
                    #[trigger] final(self)@[a],
                    old(self)@[a],
                    items@,
                ),
    {
        let ghost pre = self@;
        let ghost np = items@;
        let n = self.registry.len();
        let ids = self.registry.snapshot();
        let mut flags: Vec<bool> = Vec::new();
        while flags.len() < n
            invariant
                flags@.len() <= n,
                forall|a: int| 0 <= a < flags@.len() ==> !(#[trigger] flags@[a]),
            decreases n - flags@.len(),
        {
            flags.push(false);
        }
        // what each subscriber's channel accepted this pass, and at which
        // item index a closure was observed
        let ghost mut got: Seq<Seq<T>> = Seq::new(pre.len(), |a: int| Seq::<T>::empty());
        let ghost mut closed_at: Seq<int> = Seq::new(pre.len(), |a: int| 0int);
        proof {
            assert(np.take(0) =~= Seq::<T>::empty());
            assert forall|a: int| 0 <= a < pre.len() implies #[trigger] self@[a].1 == pre[a].1
                + got[a] by {
                assert(pre[a].1 + got[a] =~= pre[a].1);
            }
        }
        let mut j: usize = 0;
        while j < items.len()
            invariant
                0 <= j <= np.len(),
                flags@.len() == pre.len(),
                got.len() == pre.len(),
                closed_at.len() == pre.len(),
                self.registry.wf(),
                self@.len() == pre.len(),
                self.policy == old(self).policy,
                self.state == old(self).state,
                self.registry.spec_next_id() == old(self).registry.spec_next_id(),
                forall|a: int| 0 <= a < pre.len() ==> #[trigger] self@[a].0 == pre[a].0,
                forall|a: int|
                    0 <= a < pre.len() ==> #[trigger] self@[a].1 == pre[a].1 + got[a],
                forall|a: int|
                    0 <= a < pre.len() ==> subsequence_of(#[trigger] got[a], np.take(j as int)),
                self.policy is NoDrop ==> forall|a: int|
                    0 <= a < pre.len() && !flags@[a] ==> #[trigger] got[a] == np.take(j as int),
                forall|a: int|
                    0 <= a < pre.len() && #[trigger] flags@[a] ==> 0 <= closed_at[a] <= np.len(),
                self.policy is NoDrop ==> forall|a: int|
                    0 <= a < pre.len() && #[trigger] flags@[a] ==> got[a] == np.take(closed_at[a]),
            decreases np.len() - j,
        {
            let item = items[j];
            let mut i: usize = 0;
            proof {
                assert(np.take(j + 1) =~= np.take(j as int).push(np[j as int]));
            }
            while i < n
                invariant
                    0 <= i <= n,
                    0 <= j < np.len(),
                    item == np[j as int],
                    flags@.len() == pre.len(),
                    got.len() == pre.len(),
                    closed_at.len() == pre.len(),
                    n == pre.len(),
                    self.registry.wf(),
                    self@.len() == pre.len(),
                    self.policy == old(self).policy,
                    self.state == old(self).state,
                    self.registry.spec_next_id() == old(self).registry.spec_next_id(),
                    forall|a: int| 0 <= a < pre.len() ==> #[trigger] self@[a].0 == pre[a].0,
                    forall|a: int|
                        0 <= a < pre.len() ==> #[trigger] self@[a].1 == pre[a].1 + got[a],
                    forall|a: int|
                        0 <= a < i ==> subsequence_of(#[trigger] got[a], np.take(j + 1)),
                    forall|a: int|
                        i <= a < pre.len() ==> subsequence_of(
                            #[trigger] got[a],
                            np.take(j as int),
                        ),
                    self.policy is NoDrop ==> forall|a: int|
                        0 <= a < i && !flags@[a] ==> #[trigger] got[a] == np.take(j + 1),
                    self.policy is NoDrop ==> forall|a: int|
                        i <= a < pre.len() && !flags@[a] ==> #[trigger] got[a] == np.take(
                            j as int,
                        ),
                    forall|a: int|
                        0 <= a < pre.len() && #[trigger] flags@[a] ==> 0 <= closed_at[a]
                            <= np.len(),
                    self.policy is NoDrop ==> forall|a: int|
                        0 <= a < pre.len() && #[trigger] flags@[a] ==> got[a] == np.take(
                            closed_at[a],
                        ),
                decreases n - i,
            {
                let already_closed = flags[i];
                if !already_closed {
                    let pol = self.policy;
                    let outcome = self.registry.send_to(i, item, pol);
                    if outcome == DeliveryOutcome::Delivered {
                        proof {
                            let gi = got[i as int];
                            got = got.update(i as int, gi.push(np[j as int]));
                            assert((pre[i as int].1 + gi).push(np[j as int]) =~= pre[i as int].1
                                + gi.push(np[j as int]));
                            lemma_subsequence_push_both(gi, np.take(j as int), np[j as int]);
                        }
                    } else if outcome == DeliveryOutcome::Closed {
                        flags[i] = true;
                        proof {
                            closed_at = closed_at.update(i as int, j as int);
                            lemma_subsequence_extend(got[i as int], np.take(j as int), np[
                                j as int
                            ]);
                        }
                    } else {
                        proof {
                            assert(pol is DropIfFull);
                            lemma_subsequence_extend(got[i as int], np.take(j as int), np[
                                j as int
                            ]);
                        }
                    }
                } else {
                    proof {
                        lemma_subsequence_extend(got[i as int], np.take(j as int), np[j as int]);
                    }
                }
                i = i + 1;
            }
            j = j + 1;
        }
        proof {
            assert(np.take(np.len() as int) =~= np);
        }
        // mark-then-compact: turn the flags observed during the pass into the
        // list of closed ids
        let mut closed: Vec<u64> = Vec::new();
        let mut i: usize = 0;
        while i < n
            invariant
                0 <= i <= n,
                n == pre.len(),
                ids@.len() == pre.len(),
                flags@.len() == pre.len(),
                forall|a: int| 0 <= a < pre.len() ==> #[trigger] ids@[a] == pre[a].0,
                forall|a: int|
                    0 <= a < i ==> (closed@.contains(#[trigger] ids@[a]) <==> flags@[a]),
                forall|k: int|
                    0 <= k < closed@.len() ==> flagged_id(
                        ids@,
                        flags@,
                        i as int,
                        #[trigger] closed@[k],
                    ),
            decreases n - i,
        {
            let fl = flags[i];
            let ghost oldc = closed@;
            if fl {
                closed.push(ids[i]);
                proof {
                    assert forall|a: int|
                        0 <= a < i + 1 implies (closed@.contains(#[trigger] ids@[a])
                        <==> flags@[a]) by {
                        if a == i {
                            assert(closed@[closed@.len() - 1] == ids@[i as int]);
                            assert(closed@.contains(ids@[i as int]));
                        } else if flags@[a] {
                            assert(oldc.contains(ids@[a]));
                            let k = choose|k: int| 0 <= k < oldc.len() && oldc[k] == ids@[a];
                            assert(closed@[k] == ids@[a]);
                            assert(closed@.contains(ids@[a]));
                        } else {
                            if closed@.contains(ids@[a]) {
                                let k = choose|k: int|
                                    0 <= k < closed@.len() && closed@[k] == ids@[a];
                                if k < closed@.len() - 1 {
                                    assert(oldc[k] == ids@[a]);
                                    assert(oldc.contains(ids@[a]));
                                } else {
                                    assert(ids@[a] == ids@[i as int]);
                                    assert(pre[a].0 < pre[i as int].0);
                                }
                            }
                        }
                    }
                    assert forall|k: int| 0 <= k < closed@.len() implies flagged_id(
                        ids@,
                        flags@,
                        i + 1,
                        #[trigger] closed@[k],
                    ) by {
                        if k < closed@.len() - 1 {
                            assert(closed@[k] == oldc[k]);
                            lemma_flagged_id_monotone(ids@, flags@, i as int, i + 1, oldc[k]);
                        } else {
                            assert(0 <= i < i + 1 && flags@[i as int] && ids@[i as int] == closed@[
                                k
                            ]);
                        }
                    }
                }
            } else {
                proof {
                    assert forall|a: int|
                        0 <= a < i + 1 implies (closed@.contains(#[trigger] ids@[a])
                        <==> flags@[a]) by {
                        if a == i {
                            if closed@.contains(ids@[i as int]) {
                                let k = choose|k: int|
                                    0 <= k < closed@.len() && closed@[k] == ids@[i as int];
                                assert(flagged_id(ids@, flags@, i as int, closed@[k]));
                                let a0 = choose|a0: int|
                                    0 <= a0 < i && flags@[a0] && ids@[a0] == closed@[k];
                                assert(pre[a0].0 < pre[i as int].0);
                            }
                        }
                    }
                    assert forall|k: int| 0 <= k < closed@.len() implies flagged_id(
                        ids@,
                        flags@,
                        i + 1,
                        #[trigger] closed@[k],
                    ) by {
                        lemma_flagged_id_monotone(ids@, flags@, i as int, i + 1, closed@[k]);
                    }
                }
            }
            i = i + 1;
        }
        proof {
            let fin = self@;
            assert forall|k: int| 0 <= k < closed@.len() implies holds_id(
                pre,
                #[trigger] closed@[k],
            ) by {
                let a0 = choose|a: int|
                    0 <= a < i && flags@[a] && ids@[a] == closed@[k];
                assert(0 <= a0 < pre.len() && pre[a0].0 == closed@[k]);
            }
            if self.policy is NoDrop {
                assert forall|a: int|
                    0 <= a < fin.len() && !closed@.contains(#[trigger] fin[a].0) implies fin[a].1
                    == pre[a].1 + np by {
                    assert(fin[a].0 == pre[a].0 == ids@[a]);
                    assert(!flags@[a]);
                    assert(got[a] == np.take(np.len() as int));
                }
                assert forall|a: int|
                    0 <= a < fin.len() && closed@.contains(#[trigger] fin[a].0) implies
                    extends_with_prefix(fin[a], pre[a], np) by {
                    assert(fin[a].0 == pre[a].0 == ids@[a]);
                    assert(flags@[a]);
                    assert(0 <= closed_at[a] <= np.len() && fin[a].1 == pre[a].1 + np.take(
                        closed_at[a],
                    ));
                }
            } else {
                assert forall|a: int| 0 <= a < fin.len() implies extends_with_subsequence(
                    #[trigger] fin[a],
                    pre[a],
                    np,
                ) by {
                    assert(subsequence_of(got[a], np) && fin[a].1 == pre[a].1 + got[a]);
                }
            }
        }
        closed
    }

    /// One scheduler invocation.  Every available item is delivered to every
    /// live subscriber under the configured policy; subscribers observed
    /// closed are pruned before returning.  Returns `(consumed, finished)`:
    /// `consumed` is the number of items for which delivery to every
    /// currently open subscriber succeeded under the active policy — a
    /// subscriber observed closed no longer counts as open, and under
    /// `DropIfFull` an attempted item counts once attempted — so every
    /// available item retires.  `finished` is true iff upstream is exhausted
    /// and `consumed` covers everything available this tick.  With zero
    /// subscribers every item is trivially delivered: the stage never stalls
    /// with no listeners.
    #[verifier::loop_isolation(false)]
    pub fn tick(&mut self, items: &Vec<T>, upstream_finished: bool) -> (r: (usize, bool))
        requires
            old(self).wf(),
            old(self).spec_state() is Idle,
        ensures
            final(self).wf(),
            final(self).spec_policy() == old(self).spec_policy(),
            final(self).spec_next_id() == old(self).spec_next_id(),
            r.0 == items@.len(),
            r.1 == (upstream_finished && r.0 == items@.len()),
            final(self).spec_state() == (if r.1 {
                StageState::Finished
            } else {
                StageState::Idle
            }),
            final(self)@.len() <= old(self)@.len(),
            old(self).spec_policy() is NoDrop ==> forall|b: int|
                0 <= b < final(self)@.len() ==> survivor_received_all(
                    #[trigger] final(self)@[b],
                    old(self)@,
                    items@,
                ),
            old(self).spec_policy() is DropIfFull ==> forall|b: int|
                0 <= b < final(self)@.len() ==> survivor_received_subsequence(
                    #[trigger] final(self)@[b],
                    old(self)@,
                    items@,
                ),
    {
        let ghost pre = self@;
        self.state = StageState::Delivering;
        let closed = self.deliver_pass(items);
        let ghost mid = self@;
        self.state = StageState::Retiring;
        self.registry.prune(&closed);
        if upstream_finished {
            self.state = StageState::Finished;
        } else {
            self.state = StageState::Idle;
        }
        proof {
            let keep = |p: (u64, Seq<T>)| !closed@.contains(p.0);
            Seq::lemma_filter_len(mid, keep);
            assert(self@ == mid.filter(keep));
            assert forall|b: int| 0 <= b < self@.len() implies survivor_received_all(
                #[trigger] self@[b],
                pre,
                items@,
            ) || !(old(self).policy is NoDrop) by {
                lemma_filter_membership(mid, keep, b);
                Seq::lemma_filter_pred(mid, keep, b);
                let k = choose|k: int| 0 <= k < mid.len() && mid.filter(keep)[b] == mid[k];
                assert(self@[b] == mid[k]);
                assert(!closed@.contains(mid[k].0));
                assert(mid[k].0 == pre[k].0);
                if old(self).policy is NoDrop {
                    assert(mid[k].1 == pre[k].1 + items@);
                    assert(0 <= k < pre.len() && self@[b].0 == pre[k].0 && self@[b].1 == pre[k].1
                        + items@);
                }
            }
            assert forall|b: int| 0 <= b < self@.len() implies survivor_received_subsequence(
                #[trigger] self@[b],
                pre,
                items@,
            ) || !(old(self).policy is DropIfFull) by {
                lemma_filter_membership(mid, keep, b);
                Seq::lemma_filter_pred(mid, keep, b);
                let k = choose|k: int| 0 <= k < mid.len() && mid.filter(keep)[b] == mid[k];
                assert(self@[b] == mid[k]);
                assert(!closed@.contains(mid[k].0));
                assert(mid[k].0 == pre[k].0);
                if old(self).policy is DropIfFull {
                    assert(extends_with_subsequence(mid[k], pre[k], items@));
                }
            }
        }
        (items.len(), upstream_finished)
    }
}

} // verus!
