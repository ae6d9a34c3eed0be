//! The dispatch router of the presentation thread: woken by one topic,
//! it consumes exactly one result and maps the pair to the one mutation
//! of presentation state — or to no mutation at all when the result does
//! not match the topic, which is a protocol inconsistency to report, not
//! to guess around.

use vstd::prelude::*;

verus! {

use crate::bridge::{topic_matches, TopicBridge};
use crate::event::{ChooseAltDist, Event, VpinDialog};
use crate::hierarchy::LevelMap;
use crate::incoming::{IChooseAltDist, IMsg, IVpinDialog};

/// The one mutation of presentation state for a topic/result pair.
pub enum DialogUpdate {
    SetRoles(Vec<String>),
    SetSites(Vec<String>),
    SetLevels(LevelMap),
    SetDistributions(Vec<String>),
    ShowError(String),
    /// The result does not match the topic that announced it: report the
    /// inconsistency and mutate nothing.
    Mismatch,
}

/// The routing table: each topic accepts exactly the result case that
/// mirrors it, and the `Error` topic accepts the error text.
pub open spec fn spec_route(topic: Event, msg: IMsg) -> DialogUpdate {
    match (topic, msg) {
        (
            Event::VpinDialog(VpinDialog::UpdateRoles),
            IMsg::VpinDialog(IVpinDialog::Roles(roles)),
        ) => DialogUpdate::SetRoles(roles),
        (
            Event::VpinDialog(VpinDialog::UpdateSites),
            IMsg::VpinDialog(IVpinDialog::Sites(sites)),
        ) => DialogUpdate::SetSites(sites),
        (
            Event::VpinDialog(VpinDialog::UpdateLevels),
            IMsg::VpinDialog(IVpinDialog::Levels(levels)),
        ) => DialogUpdate::SetLevels(levels),
        (
            Event::ChooseAltDist(ChooseAltDist::GetDistributions),
            IMsg::ChooseAltDist(IChooseAltDist::Distributions(dists)),
        ) => DialogUpdate::SetDistributions(dists),
        (Event::Error, IMsg::Error(error)) => DialogUpdate::ShowError(error),
        _ => DialogUpdate::Mismatch,
    }
}

/// Routes the one result consumed for `topic` to its mutation.
pub fn route(topic: Event, msg: IMsg) -> (r: DialogUpdate)
    ensures
        r == spec_route(topic, msg),
{
    match (topic, msg) {
        (
            Event::VpinDialog(VpinDialog::UpdateRoles),
            IMsg::VpinDialog(IVpinDialog::Roles(roles)),
        ) => DialogUpdate::SetRoles(roles),
        (
            Event::VpinDialog(VpinDialog::UpdateSites),
            IMsg::VpinDialog(IVpinDialog::Sites(sites)),
        ) => DialogUpdate::SetSites(sites),
        (
            Event::VpinDialog(VpinDialog::UpdateLevels),
            IMsg::VpinDialog(IVpinDialog::Levels(levels)),
        ) => DialogUpdate::SetLevels(levels),
        (
            Event::ChooseAltDist(ChooseAltDist::GetDistributions),
            IMsg::ChooseAltDist(IChooseAltDist::Distributions(dists)),
        ) => DialogUpdate::SetDistributions(dists),
        (Event::Error, IMsg::Error(error)) => DialogUpdate::ShowError(error),
        _ => DialogUpdate::Mismatch,
    }
}

/// Protocol completeness, router side: a pair is routed to a state
/// mutation exactly when the result matches its topic; every mismatched
/// pair — and only those — is reported and applies nothing.
pub proof fn lemma_route_mismatch_iff(topic: Event, msg: IMsg)
    ensures
        (spec_route(topic, msg) is Mismatch) <==> !topic_matches(topic, msg),
{
}

/// One wake-up of the presentation thread: consume the pending topic
/// with the one result it announces, and route the pair.  Queues kept
/// well formed can never hand out a mismatched pair, so the returned
/// update is never `Mismatch`.
pub fn dispatch_one(bridge: &mut TopicBridge) -> (r: DialogUpdate)
    requires
        old(bridge).wf(),
        old(bridge).spec_topics().len() > 0,
    ensures
        final(bridge).wf(),
        final(bridge).spec_topics() == old(bridge).spec_topics().skip(1),
        final(bridge).spec_results() == old(bridge).spec_results().skip(1),
        r == spec_route(old(bridge).spec_topics()[0], old(bridge).spec_results()[0]),
        !(r is Mismatch),
{
    let (topic, msg) = bridge.receive();
    proof {
        lemma_route_mismatch_iff(topic, msg);
    }
    route(topic, msg)
}

} // verus!
