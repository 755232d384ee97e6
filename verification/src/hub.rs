//! The broadcast hub: one publisher, many independent subscriber queues.
//!
//! `publish` appends a message to every queue that exists at that moment
//! and never waits: with no subscribers it is a no-op. Each subscriber
//! owns its queue, so delivery to one neither reorders nor delays what
//! another receives; draining one queue leaves every other untouched. A
//! subscriber receives exactly the messages published after it
//! subscribed, in publish order.

use vstd::prelude::*;

verus! {

/// The mathematical state of one subscriber: its handle and the messages
/// published since it subscribed that it has not yet taken, oldest first.
pub struct HubSubV {
    pub id: u64,
    pub queue: Seq<Seq<char>>,
}

/// The mathematical state of the hub.
pub struct HubModel {
    pub subs: Seq<HubSubV>,
    pub next_id: u64,
}

/// Subscriber handles are distinct, and every handle is below the next
/// one to be issued.
pub open spec fn hub_wf(m: HubModel) -> bool {
    &&& forall|i: int| 0 <= i < m.subs.len() ==> (#[trigger] m.subs[i].id) < m.next_id
    &&& forall|i: int, j: int|
        0 <= i < j < m.subs.len() ==> (#[trigger] m.subs[i].id) != (#[trigger] m.subs[j].id)
}

/// The pending queue of the subscriber with a given handle, if it exists.
pub open spec fn queue_of(m: HubModel, id: u64) -> Option<Seq<Seq<char>>>
    decreases m.subs.len(),
{
    if m.subs.len() == 0 {
        None
    } else if m.subs[0].id == id {
        Some(m.subs[0].queue)
    } else {
        queue_of(HubModel { subs: m.subs.drop_first(), ..m }, id)
    }
}

/// Publishing appends the message to every current queue.
pub open spec fn spec_publish(m: HubModel, msg: Seq<char>) -> HubModel {
    HubModel {
        subs: m.subs.map_values(|s: HubSubV| HubSubV { id: s.id, queue: s.queue.push(msg) }),
        ..m
    }
}

/// Subscribing appends a fresh subscriber with an empty queue.
pub open spec fn spec_subscribe(m: HubModel) -> (HubModel, u64) {
    (
        HubModel {
            subs: m.subs.push(HubSubV { id: m.next_id, queue: Seq::empty() }),
            next_id: (m.next_id + 1) as u64,
        },
        m.next_id,
    )
}

/// One subscriber of the hub: a handle and its pending messages.
pub struct Subscriber {
    pub id: u64,
    pub queue: Vec<String>,
}

impl View for Subscriber {
    type V = HubSubV;

    open spec fn view(&self) -> HubSubV {
        HubSubV { id: self.id, queue: self.queue.deep_view() }
    }
}

impl DeepView for Subscriber {
    type V = HubSubV;

    open spec fn deep_view(&self) -> HubSubV {
        self.view()
    }
}

/// The in-process publish/subscribe hub.
pub struct BroadcastHub {
    subs: Vec<Subscriber>,
    next_id: u64,
}

impl BroadcastHub {
    /// The mathematical state of this hub.
    pub closed spec fn model(&self) -> HubModel {
        HubModel { subs: self.subs.deep_view(), next_id: self.next_id }
    }

    /// A hub with no subscribers.
    pub fn new() -> (h: Self)
        ensures
            h.model() == (HubModel { subs: Seq::<HubSubV>::empty(), next_id: 0 }),
            hub_wf(h.model()),
    {
        let h = BroadcastHub { subs: Vec::new(), next_id: 0 };
        proof {
            assert(h.subs.deep_view() =~= Seq::<HubSubV>::empty());
        }
        h
    }

    /// Registers a new subscriber and returns its handle.
    pub fn subscribe(&mut self) -> (id: u64)
        requires
            hub_wf(old(self).model()),
            old(self).model().next_id < u64::MAX,
        ensures
            final(self).model() == spec_subscribe(old(self).model()).0,
            id == spec_subscribe(old(self).model()).1,
            hub_wf(final(self).model()),
    {
        let id = self.next_id;
        let q: Vec<String> = Vec::new();
        proof {
            assert(q.deep_view() =~= Seq::<Seq<char>>::empty());
        }
        self.subs.push(Subscriber { id, queue: q });
        self.next_id = self.next_id + 1;
        proof {
            assert(self.subs.deep_view() =~= old(self).subs.deep_view().push(
                HubSubV { id, queue: Seq::empty() },
            ));
        }
        id
    }

    /// Removes the subscriber with the given handle, if it exists; every
    /// other subscriber keeps its place and its queue.
    pub fn unsubscribe(&mut self, id: u64)
        requires
            hub_wf(old(self).model()),
        ensures
            hub_wf(final(self).model()),
            final(self).model().next_id == old(self).model().next_id,
            ({
                let mo = old(self).model();
                let mf = final(self).model();
                &&& forall|j: int| 0 <= j < mf.subs.len() ==> (#[trigger] mf.subs[j]).id != id
                &&& (forall|k: int| 0 <= k < mo.subs.len() ==> (#[trigger] mo.subs[k]).id != id)
                    ==> mf == mo
                &&& (exists|k: int| 0 <= k < mo.subs.len() && (#[trigger] mo.subs[k]).id == id)
                    ==> (exists|k: int|
                    0 <= k < mo.subs.len() && (#[trigger] mo.subs[k]).id == id && mf.subs
                        == mo.subs.remove(k))
            }),
    {
        let n = self.subs.len();
        let mut i: usize = 0;
        while i < n
            invariant
                hub_wf(old(self).model()),
                self.subs == old(self).subs,
                self.next_id == old(self).next_id,
                n == self.subs@.len(),
                i <= n,
                forall|j: int| 0 <= j < i ==> (#[trigger] self.subs@[j])@.id != id,
            decreases n - i,
        {
            if self.subs[i].id == id {
                self.subs.remove(i);
                proof {
                    let od = old(self).subs.deep_view();
                    old(self).subs.deep_view().remove_ensures(i as int);
                    assert forall|j: int| 0 <= j < self.subs.deep_view().len() implies
                        self.subs.deep_view()[j] == od.remove(i as int)[j] by {
                        if j < i {
                            assert(self.subs@[j] == old(self).subs@[j]);
                        } else {
                            assert(self.subs@[j] == old(self).subs@[j + 1]);
                        }
                    }
                    assert(self.subs.deep_view() =~= od.remove(i as int));
                    let mo = old(self).model();
                    assert(od == mo.subs);
                    let rem = od.remove(i as int);
                    assert forall|a: int, b: int|
                        0 <= a < b < rem.len() implies (rem[a]).id != (rem[b]).id by {
                        let ra: int = if a < i { a } else { a + 1 };
                        let rb: int = if b < i { b } else { b + 1 };
                        assert(rem[a] == od[ra]);
                        assert(rem[b] == od[rb]);
                        assert((mo.subs[ra]).id != (mo.subs[rb]).id);
                    }
                    assert forall|j: int| 0 <= j < rem.len() implies (rem[j]).id < mo.next_id by {
                        let rj: int = if j < i { j } else { j + 1 };
                        assert(rem[j] == od[rj]);
                        assert((mo.subs[rj]).id < mo.next_id);
                    }
                    assert(hub_wf(self.model()));
                    assert forall|j: int| 0 <= j < rem.len() implies (rem[j]).id != id by {
                        let rj: int = if j < i { j } else { j + 1 };
                        assert(rem[j] == od[rj]);
                        if rj != i {
                            if rj < i {
                                assert((mo.subs[rj]).id != (mo.subs[i as int]).id);
                            } else {
                                assert((mo.subs[i as int]).id != (mo.subs[rj]).id);
                            }
                        }
                    }
                    assert((mo.subs[i as int]).id == id);
                    assert(self.model().subs == mo.subs.remove(i as int));
                }
                return ;
            }
            i += 1;
        }
    }

    /// Appends the message to every current subscriber's queue. Never
    /// waits; with no subscribers the message is dropped.
    pub fn publish(&mut self, msg: &str)
        requires
            hub_wf(old(self).model()),
        ensures
            final(self).model() == spec_publish(old(self).model(), msg@),
            hub_wf(final(self).model()),
    {
        let n = self.subs.len();
        let mut i: usize = 0;
        while i < n
            invariant
                n == self.subs@.len(),
                self.next_id == old(self).next_id,
                i <= n,
                forall|j: int|
                    i <= j < n ==> (#[trigger] self.subs@[j])@ == old(self).subs@[j]@,
                forall|j: int|
                    0 <= j < i ==> (#[trigger] self.subs@[j])@ == (HubSubV {
                        id: old(self).subs@[j]@.id,
                        queue: old(self).subs@[j]@.queue.push(msg@),
                    }),
            decreases n - i,
        {
            let s = &self.subs[i];
            let sid = s.id;
            let mut q = clone_queue(&s.queue);
            q.push(msg.to_owned());
            proof {
                assert(q.deep_view() =~= old(self).subs@[i as int]@.queue.push(msg@));
            }
            self.subs.set(i, Subscriber { id: sid, queue: q });
            i += 1;
        }
        proof {
            assert(self.subs.deep_view() =~= spec_publish(old(self).model(), msg@).subs);
        }
    }

    /// Takes the oldest pending message of the subscriber with the given
    /// handle. Every other subscriber's queue is untouched.
    pub fn pop_next(&mut self, id: u64) -> (r: Option<String>)
        requires
            hub_wf(old(self).model()),
        ensures
            hub_wf(final(self).model()),
            ({
                let mo = old(self).model();
                let mf = final(self).model();
                &&& mf.next_id == mo.next_id
                &&& mf.subs.len() == mo.subs.len()
                &&& forall|j: int|
                    0 <= j < mo.subs.len() && (#[trigger] mo.subs[j]).id != id ==> mf.subs[j]
                        == mo.subs[j]
                &&& forall|j: int|
                    0 <= j < mo.subs.len() && (#[trigger] mo.subs[j]).id == id ==> {
                        let oldq = mo.subs[j].queue;
                        let newq = mf.subs[j].queue;
                        match r {
                            Some(msg) => oldq.len() > 0 && msg@ == oldq[0] && newq
                                == oldq.drop_first() && mf.subs[j].id == id,
                            None => oldq.len() == 0 && mf.subs[j] == mo.subs[j],
                        }
                    }
                &&& r is Some ==> exists|j: int|
                    0 <= j < mo.subs.len() && (#[trigger] mo.subs[j]).id == id
                        && mo.subs[j].queue.len() > 0
            }),
    {
        let n = self.subs.len();
        let mut i: usize = 0;
        while i < n
            invariant
                hub_wf(old(self).model()),
                self.subs == old(self).subs,
                self.next_id == old(self).next_id,
                n == self.subs@.len(),
                i <= n,
                forall|j: int| 0 <= j < i ==> (#[trigger] self.subs@[j])@.id != id,
            decreases n - i,
        {
            if self.subs[i].id == id {
                let s = &self.subs[i];
                proof {
                    assert forall|j: int|
                        0 <= j < old(self).model().subs.len() && (old(self).model().subs[j]).id
                            == id implies j == i as int by {
                        if j != i {
                            assert((old(self).model().subs[j]).id != (old(
                                self,
                            ).model().subs[i as int]).id);
                        }
                    }
                }
                if s.queue.len() == 0 {
                    proof {
                        assert(self.model() == old(self).model());
                        assert(old(self).model().subs[i as int].queue.len() == 0);
                    }
                    return None;
                }
                let sid = s.id;
                let mut q = clone_queue(&s.queue);
                let msg = q.remove(0);
                proof {
                    assert(q.deep_view() =~= old(self).subs@[i as int]@.queue.drop_first());
                }
                self.subs.set(i, Subscriber { id: sid, queue: q });
                proof {
                    let mo = old(self).model();
                    let mc = self.model();
                    assert(mc.subs.len() == mo.subs.len());
                    assert forall|j: int| 0 <= j < mo.subs.len() implies (mc.subs[j]).id == (
                    mo.subs[j]).id by {
                        if j != i {
                            assert(self.subs@[j] == old(self).subs@[j]);
                        }
                    }
                    assert forall|j: int| 0 <= j < mo.subs.len() && j != i implies mc.subs[j]
                        == mo.subs[j] by {
                        assert(self.subs@[j] == old(self).subs@[j]);
                    }
                    assert(mc.subs[i as int].queue == mo.subs[i as int].queue.drop_first());
                    assert(msg@ == mo.subs[i as int].queue[0]);
                    assert forall|a: int, b: int| 0 <= a < b < mc.subs.len() implies (
                    mc.subs[a]).id != (mc.subs[b]).id by {
                        assert((mo.subs[a]).id != (mo.subs[b]).id);
                    }
                    assert forall|j: int| 0 <= j < mc.subs.len() implies (mc.subs[j]).id
                        < mc.next_id by {
                        assert((mo.subs[j]).id < mo.next_id);
                    }
                    assert(hub_wf(mc));
                }
                return Some(msg);
            }
            i += 1;
        }
        None
    }
}

/// A copy of a message queue that keeps each message's text.
fn clone_queue(q: &Vec<String>) -> (r: Vec<String>)
    ensures
        r.deep_view() == q.deep_view(),
        r@.len() == q@.len(),
        forall|j: int| 0 <= j < q@.len() ==> (#[trigger] r@[j])@ == q@[j]@,
{
    let mut out: Vec<String> = Vec::new();
    let n = q.len();
    let mut i: usize = 0;
    while i < n
        invariant
            n == q@.len(),
            i <= n,
            out@.len() == i,
            forall|j: int| 0 <= j < i ==> (#[trigger] out@[j])@ == q@[j]@,
        decreases n - i,
    {
        out.push(q[i].clone());
        i += 1;
    }
    proof {
        assert(out.deep_view() =~= q.deep_view());
    }
    out
}

/// A subscriber that registers between two publishes receives the later
/// message and not the earlier one: its queue afterwards holds exactly
/// the messages published after it subscribed, in publish order.
pub proof fn lemma_late_subscriber_misses_earlier(m0: HubModel, m1: Seq<char>, m2: Seq<char>)
    requires
        hub_wf(m0),
    ensures
        ({
            let ma = spec_publish(m0, m1);
            let (mb, id) = spec_subscribe(ma);
            let mc = spec_publish(mb, m2);
            queue_of(mc, id) == Some(seq![m2]) && (m1 != m2 ==> !queue_of(
                mc,
                id,
            ).unwrap().contains(m1))
        }),
{
    let ma = spec_publish(m0, m1);
    let (mb, id) = spec_subscribe(ma);
    let mc = spec_publish(mb, m2);
    assert(mc.subs.len() == m0.subs.len() + 1);
    assert(mc.subs.last() == HubSubV { id, queue: seq![m2] }) by {
        assert(mb.subs.last() == HubSubV { id, queue: Seq::<Seq<char>>::empty() });
        assert(Seq::<Seq<char>>::empty().push(m2) =~= seq![m2]);
    }
    assert(forall|i: int| 0 <= i < m0.subs.len() ==> (#[trigger] mc.subs[i]).id == m0.subs[i].id);
    lemma_queue_of_unique_last(mc, id);
    assert(seq![m2][0] == m2);
    assert(m1 != m2 ==> !seq![m2].contains(m1));
}

/// `queue_of` finds the last subscriber when its handle is distinct from
/// every earlier one.
proof fn lemma_queue_of_unique_last(m: HubModel, id: u64)
    requires
        m.subs.len() > 0,
        m.subs.last().id == id,
        forall|i: int| 0 <= i < m.subs.len() - 1 ==> (#[trigger] m.subs[i]).id != id,
    ensures
        queue_of(m, id) == Some(m.subs.last().queue),
    decreases m.subs.len(),
{
    if m.subs.len() == 1 {
    } else {
        let m1 = HubModel { subs: m.subs.drop_first(), ..m };
        assert(m.subs[0].id != id);
        assert(m1.subs.last() == m.subs.last());
        assert(forall|i: int| 0 <= i < m1.subs.len() - 1 ==> (#[trigger] m1.subs[i]).id != id)
            by {
            assert(forall|i: int|
                0 <= i < m1.subs.len() - 1 ==> m1.subs[i] == (#[trigger] m.subs[i + 1]));
        }
        lemma_queue_of_unique_last(m1, id);
    }
}

/// Fan-out is isolated per subscriber: one publish extends every queue by
/// exactly the published message, whatever the length or state of any
/// other queue. A stalled subscriber can grow its own backlog, but it
/// cannot change what any other subscriber receives.
pub proof fn lemma_publish_isolated(m: HubModel, msg: Seq<char>)
    ensures
        spec_publish(m, msg).subs.len() == m.subs.len(),
        forall|j: int|
            0 <= j < m.subs.len() ==> (#[trigger] spec_publish(m, msg).subs[j]) == (HubSubV {
                id: m.subs[j].id,
                queue: m.subs[j].queue.push(msg),
            }),
{
}

} // verus!
