//! The notify-plus-deliver handshake between the worker and the
//! presentation thread.
//!
//! Results travel on a data queue; topics travel on a separate
//! notification channel that can only carry small tokens.  The worker
//! must enqueue a result before raising its topic — never after — so
//! that the presentation thread, woken by a topic, always finds the
//! result already queued.  [`TopicBridge`] models the pair of queues and
//! makes that discipline a precondition of raising a topic.

use vstd::prelude::*;

verus! {

use crate::event::{ChooseAltDist, Event, VpinDialog};
use crate::incoming::{IChooseAltDist, IMsg, IVpinDialog};

/// Whether `m` is the kind of result that the topic `t` announces.
pub open spec fn topic_matches(t: Event, m: IMsg) -> bool {
    match (t, m) {
        (Event::VpinDialog(VpinDialog::UpdateRoles), IMsg::VpinDialog(IVpinDialog::Roles(_))) => true,
        (Event::VpinDialog(VpinDialog::UpdateSites), IMsg::VpinDialog(IVpinDialog::Sites(_))) => true,
        (
            Event::VpinDialog(VpinDialog::UpdateLevels),
            IMsg::VpinDialog(IVpinDialog::Levels(_)),
        ) => true,
        (
            Event::ChooseAltDist(ChooseAltDist::GetDistributions),
            IMsg::ChooseAltDist(IChooseAltDist::Distributions(_)),
        ) => true,
        (Event::Error, IMsg::Error(_)) => true,
        _ => false,
    }
}

/// The two queues of the handshake, seen from one thread at a time: the
/// result queue and the topic queue, consumed in lockstep from the front.
pub struct TopicBridge {
    results: Vec<IMsg>,
    topics: Vec<Event>,
}

impl TopicBridge {
    /// The results enqueued and not yet consumed, oldest first.
    pub closed spec fn spec_results(&self) -> Seq<IMsg> {
        self.results@
    }

    /// The topics raised and not yet consumed, oldest first.
    pub closed spec fn spec_topics(&self) -> Seq<Event> {
        self.topics@
    }

    /// Every pending topic already has its result queued, in order, and
    /// each such result matches its topic.
    pub open spec fn wf(&self) -> bool {
        &&& self.spec_topics().len() <= self.spec_results().len()
        &&& forall|i: int|
            0 <= i < self.spec_topics().len() ==> topic_matches(
                self.spec_topics()[i],
                self.spec_results()[i],
            )
    }

    pub fn new() -> (r: TopicBridge)
        ensures
            r.wf(),
            r.spec_results() == Seq::<IMsg>::empty(),
            r.spec_topics() == Seq::<Event>::empty(),
    {
        let r = TopicBridge { results: Vec::new(), topics: Vec::new() };
        proof {
            assert(r.spec_results() =~= Seq::<IMsg>::empty());
            assert(r.spec_topics() =~= Seq::<Event>::empty());
        }
        r
    }

    /// Puts a result on the data queue.  Raising its topic is only
    /// possible afterwards.
    pub fn enqueue_result(&mut self, m: IMsg)
        requires
            old(self).wf(),
        ensures
            final(self).wf(),
            final(self).spec_results() == old(self).spec_results().push(m),
            final(self).spec_topics() == old(self).spec_topics(),
    {
        self.results.push(m);
    }

    /// Raises a topic.  The queues only accept it once the matching
    /// result is already enqueued: the worker cannot signal first.
    pub fn raise_topic(&mut self, t: Event)
        requires
            old(self).wf(),
            old(self).spec_topics().len() < old(self).spec_results().len(),
            topic_matches(t, old(self).spec_results()[old(self).spec_topics().len() as int]),
        ensures
            final(self).wf(),
            final(self).spec_results() == old(self).spec_results(),
            final(self).spec_topics() == old(self).spec_topics().push(t),
    {
        self.topics.push(t);
    }

    /// The worker's emission of one answer: enqueue the result, then
    /// raise the topic, in that order.  The queues must be in lockstep:
    /// every earlier result has had its topic raised already.
    pub fn deliver(&mut self, msg: IMsg, topic: Event)
        requires
            old(self).wf(),
            old(self).spec_topics().len() == old(self).spec_results().len(),
            topic_matches(topic, msg),
        ensures
            final(self).wf(),
            final(self).spec_results() == old(self).spec_results().push(msg),
            final(self).spec_topics() == old(self).spec_topics().push(topic),
    {
        self.enqueue_result(msg);
        self.raise_topic(topic);
    }

    /// Whether a wake-up is pending.
    pub fn has_pending_topic(&self) -> (r: bool)
        ensures
            r == (self.spec_topics().len() > 0),
    {
        self.topics.len() > 0
    }

    /// How many results are queued and not yet consumed.
    pub fn pending_results(&self) -> (r: usize)
        ensures
            r == self.spec_results().len(),
    {
        self.results.len()
    }

    /// One consumption step of the presentation thread: take the oldest
    /// pending topic together with the one result it announces.  A
    /// pending topic guarantees the result is there.
    pub fn receive(&mut self) -> (r: (Event, IMsg))
        requires
            old(self).wf(),
            old(self).spec_topics().len() > 0,
        ensures
            final(self).wf(),
            r.0 == old(self).spec_topics()[0],
            r.1 == old(self).spec_results()[0],
            topic_matches(r.0, r.1),
            final(self).spec_topics() == old(self).spec_topics().skip(1),
            final(self).spec_results() == old(self).spec_results().skip(1),
    {
        let t = self.topics.remove(0);
        let m = self.results.remove(0);
        proof {
            assert(self.topics@ =~= old(self).spec_topics().skip(1));
            assert(self.results@ =~= old(self).spec_results().skip(1));
            assert forall|i: int|
                0 <= i < self.topics@.len() implies topic_matches(
                self.topics@[i],
                self.results@[i],
            ) by {
                assert(self.topics@[i] == old(self).spec_topics()[i + 1]);
                assert(self.results@[i] == old(self).spec_results()[i + 1]);
            }
        }
        (t, m)
    }
}

/// The ordering invariant of the handshake: however many topics are
/// pending, the n-th of them corresponds to a result already fully
/// enqueued — a topic can never arrive ahead of its result.
pub proof fn lemma_nth_topic_has_matching_result(b: &TopicBridge, n: int)
    requires
        b.wf(),
        0 <= n < b.spec_topics().len(),
    ensures
        n < b.spec_results().len(),
        topic_matches(b.spec_topics()[n], b.spec_results()[n]),
{
}

} // verus!
