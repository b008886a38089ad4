//! The subscriber hub: who is connected, and the fan-out of one message to
//! all of them.

use vstd::prelude::*;
use tokio::sync::mpsc::UnboundedSender;
use crate::channel::offer;

verus! {

/// One connected observer: the handle the hub gave it and its outbound
/// channel.
pub struct Subscriber {
    pub handle: u64,
    pub channel: UnboundedSender<Vec<u8>>,
}

/// What became of one delivery attempt of a broadcast.
#[derive(Clone, Copy, Debug, PartialEq, Eq, Structural)]
pub struct Delivery {
    /// The subscriber the message was offered to.
    pub handle: u64,
    /// Whether its channel took the message.
    pub delivered: bool,
}

/// The subscribers that a broadcast keeps: those whose delivery succeeded, in
/// their old order. `outcome[i]` says whether the delivery to
/// `subscribers[i]` succeeded.
pub open spec fn survivors(subscribers: Seq<Subscriber>, outcome: Seq<bool>) -> Seq<Subscriber>
    decreases subscribers.len(),
{
    if subscribers.len() == 0 || outcome.len() != subscribers.len() {
        Seq::empty()
    } else if outcome.last() {
        survivors(subscribers.drop_last(), outcome.drop_last()).push(subscribers.last())
    } else {
        survivors(subscribers.drop_last(), outcome.drop_last())
    }
}

/// The subscribers without the one that has this handle, in their old order.
pub open spec fn without(subscribers: Seq<Subscriber>, handle: u64) -> Seq<Subscriber> {
    subscribers.filter(|s: Subscriber| s.handle != handle)
}

/// Whether some subscriber has this handle.
pub open spec fn is_registered(subscribers: Seq<Subscriber>, handle: u64) -> bool {
    exists|i: int| 0 <= i < subscribers.len() && (#[trigger] subscribers[i]).handle == handle
}

/// The outcomes of a report, in the same order.
pub open spec fn outcomes(report: Seq<Delivery>) -> Seq<bool> {
    report.map_values(|d: Delivery| d.delivered)
}

/// What a [`Hub`] is, as a mathematical value.
pub struct HubView {
    /// The subscribers, in the order in which they registered.
    pub subscribers: Seq<Subscriber>,
    /// The handle that the next registration gets.
    pub next_handle: u64,
}

impl HubView {
    /// Handles are given out in rising order and never twice: every
    /// subscriber's handle is below the next one, and an earlier subscriber
    /// has a smaller handle than a later one.
    pub open spec fn well_formed(self) -> bool {
        &&& forall|i: int|
            0 <= i < self.subscribers.len() ==> (#[trigger] self.subscribers[i]).handle
                < self.next_handle
        &&& forall|i: int, j: int|
            0 <= i < j < self.subscribers.len() ==> (#[trigger] self.subscribers[i]).handle < (
            #[trigger] self.subscribers[j]).handle
    }

    /// The hub after `channel` registered; it got the handle `next_handle`.
    pub open spec fn registered(self, channel: UnboundedSender<Vec<u8>>) -> HubView {
        HubView {
            subscribers: self.subscribers.push(
                Subscriber { handle: self.next_handle, channel: channel },
            ),
            next_handle: (self.next_handle + 1) as u64,
        }
    }

    /// The hub after the subscriber with this handle, if any, left.
    pub open spec fn unregistered(self, handle: u64) -> HubView {
        HubView {
            subscribers: without(self.subscribers, handle),
            next_handle: self.next_handle,
        }
    }

    /// The hub after a broadcast whose deliveries had this outcome.
    pub open spec fn pruned(self, outcome: Seq<bool>) -> HubView {
        HubView {
            subscribers: survivors(self.subscribers, outcome),
            next_handle: self.next_handle,
        }
    }
}

/// The set of connected observers.
pub struct Hub {
    subscribers: Vec<Subscriber>,
    next_handle: u64,
}

impl View for Hub {
    type V = HubView;

    closed spec fn view(&self) -> HubView {
        HubView { subscribers: self.subscribers@, next_handle: self.next_handle }
    }
}

impl Hub {
    #[verifier::type_invariant]
    spec fn inv(self) -> bool {
        self@.well_formed()
    }

    /// A hub with no subscribers.
    pub fn new() -> (hub: Hub)
        ensures
            hub@.subscribers.len() == 0,
            hub@.next_handle == 0,
            hub@.well_formed(),
    {
        Hub { subscribers: Vec::new(), next_handle: 0 }
    }

    /// How many subscribers are registered.
    pub fn len(&self) -> (n: usize)
        ensures
            n == self@.subscribers.len(),
            self@.well_formed(),
    {
        proof {
            use_type_invariant(self);
        }
        self.subscribers.len()
    }

    /// Whether a subscriber with this handle is registered.
    pub fn contains(&self, handle: u64) -> (found: bool)
        ensures
            found == is_registered(self@.subscribers, handle),
            self@.well_formed(),
    {
        proof {
            use_type_invariant(self);
        }
        let mut i: usize = 0;
        while i < self.subscribers.len()
            invariant
                i <= self.subscribers@.len(),
                self@.well_formed(),
                forall|k: int| 0 <= k < i ==> (#[trigger] self.subscribers@[k]).handle != handle,
            decreases self.subscribers@.len() - i,
        {
            if self.subscribers[i].handle == handle {
                return true;
            }
            i = i + 1;
        }
        false
    }

    /// Registers an observer's outbound channel and returns the handle under
    /// which the hub knows it. The handle was never given out before. Returns
    /// `None`, and changes nothing, once every handle has been given out.
    pub fn register(&mut self, channel: UnboundedSender<Vec<u8>>) -> (handle: Option<u64>)
        ensures
            old(self)@.well_formed(),
            final(self)@.well_formed(),
            old(self)@.next_handle < u64::MAX ==> {
                &&& handle == Some(old(self)@.next_handle)
                &&& final(self)@ == old(self)@.registered(channel)
            },
            old(self)@.next_handle == u64::MAX ==> {
                &&& handle is None
                &&& final(self)@ == old(self)@
            },
    {
        proof {
            use_type_invariant(&*self);
        }
        if self.next_handle == u64::MAX {
            return None;
        }
        let handle: u64 = self.next_handle;
        let mut subscribers: Vec<Subscriber> = Vec::new();
        core::mem::swap(&mut subscribers, &mut self.subscribers);
        self.next_handle = handle + 1;
        subscribers.push(Subscriber { handle, channel });
        proof {
            lemma_registering_keeps_the_order(old(self)@, channel);
        }
        self.subscribers = subscribers;
        Some(handle)
    }

    /// Removes the subscriber with this handle and says whether there was
    /// one. The others stay, in their order. A handle that is not registered
    /// changes nothing.
    pub fn unregister(&mut self, handle: u64) -> (was_registered: bool)
        ensures
            old(self)@.well_formed(),
            final(self)@.well_formed(),
            final(self)@ == old(self)@.unregistered(handle),
            was_registered == is_registered(old(self)@.subscribers, handle),
    {
        proof {
            use_type_invariant(&*self);
        }
        let mut subscribers: Vec<Subscriber> = Vec::new();
        core::mem::swap(&mut subscribers, &mut self.subscribers);
        let ghost before = subscribers@;
        let ghost mask = stays(before, handle);
        let ghost mut seen: int = 0;
        let mut found: bool = false;
        let mut at: usize = 0;
        proof {
            assert(before.take(0) =~= Seq::empty());
            assert(before.skip(0) =~= before);
            assert(survivors(before.take(0), mask.take(0)) =~= Seq::empty());
        }
        while at < subscribers.len()
            invariant
                0 <= seen <= before.len(),
                mask == stays(before, handle),
                at == survivors(before.take(seen), mask.take(seen)).len(),
                subscribers@ == survivors(before.take(seen), mask.take(seen)) + before.skip(seen),
                found == exists|k: int| 0 <= k < seen && (#[trigger] before[k]).handle == handle,
            decreases before.len() - seen,
        {
            proof {
                assert(subscribers@[at as int] == before.skip(seen)[0]);
                assert(before.take(seen + 1) =~= before.take(seen).push(before[seen]));
                assert(mask.take(seen + 1) =~= mask.take(seen).push(mask[seen]));
                lemma_survivors_push(
                    before.take(seen),
                    mask.take(seen),
                    before[seen],
                    mask[seen],
                );
            }
            if subscribers[at].handle == handle {
                let _ = subscribers.remove(at);
                found = true;
                assert(subscribers@ =~= survivors(before.take(seen + 1), mask.take(seen + 1))
                    + before.skip(seen + 1));
            } else {
                at = at + 1;
                assert(subscribers@ =~= survivors(before.take(seen + 1), mask.take(seen + 1))
                    + before.skip(seen + 1));
            }
            proof {
                seen = seen + 1;
            }
        }
        proof {
            assert(before.take(seen) =~= before);
            assert(mask.take(seen) =~= mask);
            assert(subscribers@ =~= survivors(before, mask));
            lemma_without_is_survivors(before, handle);
            lemma_pruning_keeps_the_order(old(self)@, mask);
        }
        self.subscribers = subscribers;
        found
    }

    /// Offers the payload once to every subscriber, in the order in which
    /// they registered, and drops each subscriber whose channel did not take
    /// it. One failed delivery stops nothing: every subscriber gets its
    /// attempt. The report holds one entry per subscriber that was registered
    /// when the call began, in that order.
    pub fn broadcast(&mut self, payload: &Vec<u8>) -> (report: Vec<Delivery>)
        ensures
            old(self)@.well_formed(),
            final(self)@.well_formed(),
            report@.len() == old(self)@.subscribers.len(),
            forall|i: int|
                0 <= i < report@.len() ==> (#[trigger] report@[i]).handle
                    == old(self)@.subscribers[i].handle,
            final(self)@ == old(self)@.pruned(outcomes(report@)),
            final(self)@.subscribers.len() <= old(self)@.subscribers.len(),
            forall|i: int|
                0 <= i < report@.len() ==> (is_registered(
                    final(self)@.subscribers,
                    (#[trigger] report@[i]).handle,
                ) <==> report@[i].delivered),
    {
        proof {
            use_type_invariant(&*self);
        }
        let mut subscribers: Vec<Subscriber> = Vec::new();
        core::mem::swap(&mut subscribers, &mut self.subscribers);
        let ghost before = subscribers@;
        let mut report: Vec<Delivery> = Vec::new();
        let mut at: usize = 0;
        proof {
            assert(before.take(0) =~= Seq::empty());
            assert(before.skip(0) =~= before);
            assert(outcomes(report@) =~= Seq::empty());
            assert(survivors(before.take(0), outcomes(report@)) =~= Seq::empty());
        }
        while at < subscribers.len()
            invariant
                report@.len() <= before.len(),
                at == survivors(before.take(report@.len() as int), outcomes(report@)).len(),
                subscribers@ == survivors(before.take(report@.len() as int), outcomes(report@))
                    + before.skip(report@.len() as int),
                forall|i: int|
                    0 <= i < report@.len() ==> (#[trigger] report@[i]).handle == before[i].handle,
            decreases before.len() - report@.len(),
        {
            let ghost seen = report@.len() as int;
            let ghost earlier = outcomes(report@);
            let taken: bool = offer(&subscribers[at].channel, payload.clone());
            let handle: u64 = subscribers[at].handle;
            proof {
                assert(subscribers@[at as int] == before.skip(seen)[0]);
                assert(before.take(seen + 1) =~= before.take(seen).push(before[seen]));
                lemma_survivors_push(before.take(seen), earlier, before[seen], taken);
            }
            report.push(Delivery { handle, delivered: taken });
            proof {
                assert(outcomes(report@) =~= earlier.push(taken));
            }
            if taken {
                at = at + 1;
                assert(subscribers@ =~= survivors(before.take(seen + 1), outcomes(report@))
                    + before.skip(seen + 1));
            } else {
                let _ = subscribers.remove(at);
                assert(subscribers@ =~= survivors(before.take(seen + 1), outcomes(report@))
                    + before.skip(seen + 1));
            }
        }
        proof {
            assert(before.take(report@.len() as int) =~= before);
            assert(subscribers@ =~= survivors(before, outcomes(report@)));
            lemma_broadcast_prunes_the_dead(old(self)@, outcomes(report@));
            assert forall|i: int| 0 <= i < report@.len() implies (is_registered(
                subscribers@,
                (#[trigger] report@[i]).handle,
            ) <==> report@[i].delivered) by {
                assert(outcomes(report@)[i] == report@[i].delivered);
                assert(report@[i].handle == before[i].handle);
            }
        }
        self.subscribers = subscribers;
        report
    }
}

/// For each subscriber, whether it stays when `handle` is unregistered.
pub open spec fn stays(subscribers: Seq<Subscriber>, handle: u64) -> Seq<bool> {
    subscribers.map_values(|s: Subscriber| s.handle != handle)
}

/// One more subscriber at the end is kept or dropped as its own outcome says.
pub proof fn lemma_survivors_push(
    subscribers: Seq<Subscriber>,
    outcome: Seq<bool>,
    last: Subscriber,
    delivered: bool,
)
    requires
        subscribers.len() == outcome.len(),
    ensures
        survivors(subscribers.push(last), outcome.push(delivered)) == if delivered {
            survivors(subscribers, outcome).push(last)
        } else {
            survivors(subscribers, outcome)
        },
{
    assert(subscribers.push(last).drop_last() =~= subscribers);
    assert(outcome.push(delivered).drop_last() =~= outcome);
}

/// Unregistering a handle keeps exactly the subscribers that `stays` marks.
pub proof fn lemma_without_is_survivors(subscribers: Seq<Subscriber>, handle: u64)
    ensures
        without(subscribers, handle) == survivors(subscribers, stays(subscribers, handle)),
    decreases subscribers.len(),
{
    reveal(Seq::filter);
    if subscribers.len() > 0 {
        lemma_without_is_survivors(subscribers.drop_last(), handle);
        assert(stays(subscribers, handle).drop_last() =~= stays(subscribers.drop_last(), handle));
    }
}

/// Whether the delivery to `subscriber` was attempted and succeeded.
pub open spec fn delivered_to(
    subscribers: Seq<Subscriber>,
    outcome: Seq<bool>,
    subscriber: Subscriber,
) -> bool {
    exists|k: int|
        0 <= k < subscribers.len() && outcome[k] && #[trigger] subscribers[k] == subscriber
}

/// The survivors are exactly the subscribers whose delivery succeeded.
pub proof fn lemma_survivors_are_the_delivered(subscribers: Seq<Subscriber>, outcome: Seq<bool>)
    requires
        subscribers.len() == outcome.len(),
    ensures
        survivors(subscribers, outcome).len() <= subscribers.len(),
        forall|s: Subscriber|
            #[trigger] survivors(subscribers, outcome).contains(s) <==> delivered_to(
                subscribers,
                outcome,
                s,
            ),
    decreases subscribers.len(),
{
    let kept = survivors(subscribers, outcome);
    if subscribers.len() == 0 {
        assert forall|s: Subscriber| #[trigger] kept.contains(s) <==> delivered_to(
            subscribers,
            outcome,
            s,
        ) by {}
    } else {
        let shorter = subscribers.drop_last();
        let earlier = outcome.drop_last();
        let kept_earlier = survivors(shorter, earlier);
        let end = subscribers.len() - 1;
        lemma_survivors_are_the_delivered(shorter, earlier);
        assert forall|s: Subscriber| #[trigger] kept.contains(s) <==> delivered_to(
            subscribers,
            outcome,
            s,
        ) by {
            if kept.contains(s) {
                let i = choose|i: int| 0 <= i < kept.len() && kept[i] == s;
                if i < kept_earlier.len() {
                    assert(kept_earlier[i] == s);
                    assert(kept_earlier.contains(s));
                    let k = choose|k: int|
                        0 <= k < shorter.len() && earlier[k] && #[trigger] shorter[k] == s;
                    assert(outcome[k] && subscribers[k] == s);
                } else {
                    assert(outcome[end] && subscribers[end] == s);
                }
            }
            if delivered_to(subscribers, outcome, s) {
                let k = choose|k: int|
                    0 <= k < subscribers.len() && outcome[k] && #[trigger] subscribers[k] == s;
                if k < end {
                    assert(earlier[k] && shorter[k] == s);
                    assert(kept_earlier.contains(s));
                    let i = choose|i: int| 0 <= i < kept_earlier.len() && kept_earlier[i] == s;
                    assert(kept[i] == s);
                } else {
                    assert(kept[kept.len() - 1] == s);
                }
            }
        }
    }
}

/// Dropping subscribers never disturbs the order of the handles that stay.
pub proof fn lemma_pruning_keeps_the_order(hub: HubView, outcome: Seq<bool>)
    requires
        hub.well_formed(),
        hub.subscribers.len() == outcome.len(),
    ensures
        hub.pruned(outcome).well_formed(),
    decreases hub.subscribers.len(),
{
    let subscribers = hub.subscribers;
    if subscribers.len() > 0 {
        let shorter = subscribers.drop_last();
        let earlier = outcome.drop_last();
        let kept = survivors(subscribers, outcome);
        let kept_earlier = survivors(shorter, earlier);
        let last = subscribers.last();
        let smaller = HubView { subscribers: shorter, next_handle: hub.next_handle };
        assert(smaller.well_formed()) by {
            assert forall|i: int| 0 <= i < shorter.len() implies (#[trigger] shorter[i]).handle
                < hub.next_handle by {
                assert(shorter[i] == subscribers[i]);
            }
            assert forall|i: int, j: int| 0 <= i < j < shorter.len() implies (
            #[trigger] shorter[i]).handle < (#[trigger] shorter[j]).handle by {
                assert(shorter[i] == subscribers[i]);
                assert(shorter[j] == subscribers[j]);
            }
        }
        lemma_pruning_keeps_the_order(smaller, earlier);
        assert(smaller.pruned(earlier).subscribers == kept_earlier);
        lemma_survivors_are_the_delivered(shorter, earlier);
        assert forall|i: int| 0 <= i < kept_earlier.len() implies (
        #[trigger] kept_earlier[i]).handle < last.handle by {
            let s = kept_earlier[i];
            assert(kept_earlier.contains(s));
            let k = choose|k: int|
                0 <= k < shorter.len() && earlier[k] && #[trigger] shorter[k] == s;
            assert(subscribers[k] == s);
        }
        if outcome.last() {
            assert(kept == kept_earlier.push(last));
            assert forall|i: int| 0 <= i < kept.len() implies (#[trigger] kept[i]).handle
                < hub.next_handle by {
                if i < kept_earlier.len() {
                    assert(kept[i] == kept_earlier[i]);
                }
            }
            assert forall|i: int, j: int| 0 <= i < j < kept.len() implies (
            #[trigger] kept[i]).handle < (#[trigger] kept[j]).handle by {
                assert(kept[i] == kept_earlier[i]);
                if j < kept_earlier.len() {
                    assert(kept[j] == kept_earlier[j]);
                }
            }
        } else {
            assert(kept == kept_earlier);
        }
    }
}

/// Where every delivery succeeds, every subscriber stays.
pub proof fn lemma_survivors_all_delivered(subscribers: Seq<Subscriber>, outcome: Seq<bool>)
    requires
        subscribers.len() == outcome.len(),
        forall|k: int| 0 <= k < outcome.len() ==> outcome[k],
    ensures
        survivors(subscribers, outcome) == subscribers,
    decreases subscribers.len(),
{
    if subscribers.len() > 0 {
        lemma_survivors_all_delivered(subscribers.drop_last(), outcome.drop_last());
        assert(subscribers.drop_last().push(subscribers.last()) =~= subscribers);
    } else {
        assert(subscribers =~= Seq::empty());
    }
}

/// Registering keeps the handles in rising order.
pub proof fn lemma_registering_keeps_the_order(hub: HubView, channel: UnboundedSender<Vec<u8>>)
    requires
        hub.well_formed(),
        hub.next_handle < u64::MAX,
    ensures
        hub.registered(channel).well_formed(),
{
    let before = hub.subscribers;
    let joined = hub.registered(channel);
    assert forall|i: int| 0 <= i < joined.subscribers.len() implies (
    #[trigger] joined.subscribers[i]).handle < joined.next_handle by {
        if i < before.len() {
            assert(joined.subscribers[i] == before[i]);
        }
    }
    assert forall|i: int, j: int| 0 <= i < j < joined.subscribers.len() implies (
    #[trigger] joined.subscribers[i]).handle < (#[trigger] joined.subscribers[j]).handle by {
        assert(joined.subscribers[i] == before[i]);
        if j < before.len() {
            assert(joined.subscribers[j] == before[j]);
        }
    }
}

/// Fan-out. The report of a broadcast holds one delivery attempt for each
/// subscriber that was registered when the broadcast began, and no handle
/// twice. An observer that registers after the broadcast is not in the
/// report: its handle is one that the broadcast never offered to.
pub proof fn lemma_broadcast_reaches_each_subscriber_once(
    hub: HubView,
    report: Seq<Delivery>,
    channel: UnboundedSender<Vec<u8>>,
)
    requires
        hub.well_formed(),
        hub.next_handle < u64::MAX,
        report.len() == hub.subscribers.len(),
        forall|i: int|
            0 <= i < report.len() ==> (#[trigger] report[i]).handle == hub.subscribers[i].handle,
    ensures
        forall|k: int|
            0 <= k < hub.subscribers.len() ==> exists|i: int|
                0 <= i < report.len() && (#[trigger] report[i]).handle == (
                #[trigger] hub.subscribers[k]).handle,
        forall|i: int, j: int|
            0 <= i < j < report.len() ==> (#[trigger] report[i]).handle != (
            #[trigger] report[j]).handle,
        ({
            let later = hub.pruned(outcomes(report)).registered(channel);
            let newcomer = later.subscribers.last();
            &&& newcomer.channel == channel
            &&& is_registered(later.subscribers, newcomer.handle)
            &&& forall|i: int| 0 <= i < report.len() ==> (#[trigger] report[i]).handle != newcomer.handle
        }),
{
    assert forall|k: int| 0 <= k < hub.subscribers.len() implies exists|i: int|
        0 <= i < report.len() && (#[trigger] report[i]).handle == (
        #[trigger] hub.subscribers[k]).handle by {
        assert(report[k].handle == hub.subscribers[k].handle);
    }
    assert forall|i: int, j: int| 0 <= i < j < report.len() implies (#[trigger] report[i]).handle
        != (#[trigger] report[j]).handle by {
        assert(hub.subscribers[i].handle < hub.subscribers[j].handle);
    }
    let later = hub.pruned(outcomes(report)).registered(channel);
    let newcomer = later.subscribers.last();
    assert(later.subscribers[later.subscribers.len() - 1] == newcomer);
    assert forall|i: int| 0 <= i < report.len() implies (#[trigger] report[i]).handle
        != newcomer.handle by {
        assert(hub.subscribers[i].handle < hub.next_handle);
    }
}

/// Pruning. After a broadcast a subscriber is registered if and only if its
/// delivery succeeded: one whose channel is closed is gone, every other one
/// is still there with its channel, and the hub has not grown.
pub proof fn lemma_broadcast_prunes_the_dead(hub: HubView, outcome: Seq<bool>)
    requires
        hub.well_formed(),
        outcome.len() == hub.subscribers.len(),
    ensures
        hub.pruned(outcome).well_formed(),
        hub.pruned(outcome).subscribers.len() <= hub.subscribers.len(),
        forall|k: int|
            0 <= k < hub.subscribers.len() ==> (is_registered(
                hub.pruned(outcome).subscribers,
                (#[trigger] hub.subscribers[k]).handle,
            ) <==> outcome[k]),
        forall|k: int|
            0 <= k < hub.subscribers.len() && outcome[k] ==> hub.pruned(
                outcome,
            ).subscribers.contains(#[trigger] hub.subscribers[k]),
{
    let before = hub.subscribers;
    let after = hub.pruned(outcome).subscribers;
    lemma_pruning_keeps_the_order(hub, outcome);
    lemma_survivors_are_the_delivered(before, outcome);
    assert forall|k: int| 0 <= k < before.len() && outcome[k] implies after.contains(
        #[trigger] before[k],
    ) by {
        assert(delivered_to(before, outcome, before[k]));
    }
    assert forall|k: int| 0 <= k < before.len() implies (is_registered(
        after,
        (#[trigger] before[k]).handle,
    ) <==> outcome[k]) by {
        if outcome[k] {
            assert(after.contains(before[k]));
            let i = choose|i: int| 0 <= i < after.len() && after[i] == before[k];
            assert(after[i].handle == before[k].handle);
        }
        if is_registered(after, before[k].handle) {
            let i = choose|i: int|
                0 <= i < after.len() && (#[trigger] after[i]).handle == before[k].handle;
            assert(after.contains(after[i]));
            let j = choose|j: int|
                0 <= j < before.len() && outcome[j] && #[trigger] before[j] == after[i];
            if j < k {
                assert(before[j].handle < before[k].handle);
            }
            if k < j {
                assert(before[k].handle < before[j].handle);
            }
        }
    }
}

/// Unregistering removes the subscriber with that handle and no other. Where
/// the handle is not registered, nothing changes.
pub proof fn lemma_unregister_removes_only_that_handle(hub: HubView, handle: u64, other: u64)
    requires
        hub.well_formed(),
    ensures
        hub.unregistered(handle).well_formed(),
        hub.unregistered(handle).subscribers.len() <= hub.subscribers.len(),
        !is_registered(hub.unregistered(handle).subscribers, handle),
        other != handle ==> (is_registered(hub.unregistered(handle).subscribers, other)
            <==> is_registered(hub.subscribers, other)),
        !is_registered(hub.subscribers, handle) ==> hub.unregistered(handle) == hub,
{
    let before = hub.subscribers;
    let mask = stays(before, handle);
    let after = hub.unregistered(handle).subscribers;
    lemma_without_is_survivors(before, handle);
    assert(hub.unregistered(handle) == hub.pruned(mask));
    lemma_broadcast_prunes_the_dead(hub, mask);
    lemma_survivors_are_the_delivered(before, mask);
    if is_registered(after, handle) {
        let i = choose|i: int| 0 <= i < after.len() && (#[trigger] after[i]).handle == handle;
        assert(after.contains(after[i]));
        let j = choose|j: int| 0 <= j < before.len() && mask[j] && #[trigger] before[j] == after[i];
        assert(false);
    }
    if other != handle {
        if is_registered(after, other) {
            let i = choose|i: int| 0 <= i < after.len() && (#[trigger] after[i]).handle == other;
            assert(after.contains(after[i]));
            let j = choose|j: int|
                0 <= j < before.len() && mask[j] && #[trigger] before[j] == after[i];
            assert(before[j].handle == other);
        }
        if is_registered(before, other) {
            let k = choose|k: int| 0 <= k < before.len() && (#[trigger] before[k]).handle == other;
            assert(mask[k]);
            assert(is_registered(after, before[k].handle));
        }
    }
    if !is_registered(before, handle) {
        assert forall|k: int| 0 <= k < mask.len() implies mask[k] by {
            assert(before[k].handle != handle);
        }
        lemma_survivors_all_delivered(before, mask);
    }
}

/// No growth. An observer that connects and disconnects leaves the hub's
/// subscribers exactly as they were.
pub proof fn lemma_connect_disconnect_leaves_no_trace(
    hub: HubView,
    channel: UnboundedSender<Vec<u8>>,
)
    requires
        hub.well_formed(),
        hub.next_handle < u64::MAX,
    ensures
        hub.registered(channel).well_formed(),
        hub.registered(channel).unregistered(hub.next_handle).subscribers == hub.subscribers,
{
    let before = hub.subscribers;
    let joined = hub.registered(channel);
    let newcomer = Subscriber { handle: hub.next_handle, channel: channel };
    lemma_registering_keeps_the_order(hub, channel);
    let mask = stays(before, hub.next_handle);
    assert forall|k: int| 0 <= k < mask.len() implies mask[k] by {
        assert(before[k].handle < hub.next_handle);
    }
    lemma_survivors_all_delivered(before, mask);
    lemma_without_is_survivors(joined.subscribers, hub.next_handle);
    assert(stays(joined.subscribers, hub.next_handle) =~= mask.push(false));
    lemma_survivors_push(before, mask, newcomer, false);
}

} // verus!
