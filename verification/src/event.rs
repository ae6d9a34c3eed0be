//! Topics: the small tokens that wake the presentation thread into
//! consuming a pending result.
//!
//! A topic carries no payload — the payload travels on the result queue.
//! The notification transport can only carry text, so every topic has a
//! fixed text form; both sides are built from this one definition, and an
//! unrecognized text is a build-skew error, not a runtime condition.

use vstd::prelude::*;

verus! {

use crate::text::str_eq;

/// Topics of the version-pin dialog.
#[derive(Debug, PartialEq, Eq, Structural, Clone, Copy)]
pub enum VpinDialog {
    UpdateRoles,
    UpdateSites,
    UpdateLevels,
}

/// Topics of the alternate-distribution chooser.
#[derive(Debug, PartialEq, Eq, Structural, Clone, Copy)]
pub enum ChooseAltDist {
    GetDistributions,
}

/// Conversion of a namespaced topic into the top-level [`Event`].
pub trait ToEvent: Sized {
    /// The event that [`Self::to_event`] returns.
    spec fn spec_event(self) -> Event;

    fn to_event(self) -> (r: Event)
        ensures
            r == self.spec_event(),
    ;
}

/// A wake-up topic raised by the worker after it enqueued a result.
#[derive(Debug, PartialEq, Eq, Structural, Clone, Copy)]
pub enum Event {
    VpinDialog(VpinDialog),
    ChooseAltDist(ChooseAltDist),
    Error,
}

impl ToEvent for VpinDialog {
    open spec fn spec_event(self) -> Event {
        Event::VpinDialog(self)
    }

    fn to_event(self) -> (r: Event) {
        Event::VpinDialog(self)
    }
}

impl ToEvent for ChooseAltDist {
    open spec fn spec_event(self) -> Event {
        Event::ChooseAltDist(self)
    }

    fn to_event(self) -> (r: Event) {
        Event::ChooseAltDist(self)
    }
}

/// The fixed text form of each topic.
pub open spec fn spec_event_text(e: Event) -> Seq<char> {
    match e {
        Event::VpinDialog(VpinDialog::UpdateRoles) => "VpinDialog::UpdateRoles"@,
        Event::VpinDialog(VpinDialog::UpdateSites) => "VpinDialog::UpdateSites"@,
        Event::VpinDialog(VpinDialog::UpdateLevels) => "VpinDialog::UpdateLevels"@,
        Event::ChooseAltDist(ChooseAltDist::GetDistributions) => "ChooseAltDist::GetDistributions"@,
        Event::Error => "Error"@,
    }
}

/// The topic whose text form is `s`, if any.
pub open spec fn spec_parse_event(s: Seq<char>) -> Option<Event> {
    if s == "VpinDialog::UpdateRoles"@ {
        Some(Event::VpinDialog(VpinDialog::UpdateRoles))
    } else if s == "VpinDialog::UpdateSites"@ {
        Some(Event::VpinDialog(VpinDialog::UpdateSites))
    } else if s == "VpinDialog::UpdateLevels"@ {
        Some(Event::VpinDialog(VpinDialog::UpdateLevels))
    } else if s == "ChooseAltDist::GetDistributions"@ {
        Some(Event::ChooseAltDist(ChooseAltDist::GetDistributions))
    } else if s == "Error"@ {
        Some(Event::Error)
    } else {
        None
    }
}

impl Event {
    /// The text under which this topic crosses the notification transport.
    pub fn to_text(&self) -> (r: String)
        ensures
            r@ == spec_event_text(*self),
    {
        match self {
            Event::VpinDialog(VpinDialog::UpdateRoles) => "VpinDialog::UpdateRoles".to_owned(),
            Event::VpinDialog(VpinDialog::UpdateSites) => "VpinDialog::UpdateSites".to_owned(),
            Event::VpinDialog(VpinDialog::UpdateLevels) => "VpinDialog::UpdateLevels".to_owned(),
            Event::ChooseAltDist(ChooseAltDist::GetDistributions) => {
                "ChooseAltDist::GetDistributions".to_owned()
            },
            Event::Error => "Error".to_owned(),
        }
    }

    /// Parses a topic back from its text form.  `None` marks a text no
    /// topic uses — a fatal protocol error for the caller to report.
    pub fn from_text(s: &str) -> (r: Option<Event>)
        ensures
            r == spec_parse_event(s@),
    {
        if str_eq(s, "VpinDialog::UpdateRoles") {
            Some(Event::VpinDialog(VpinDialog::UpdateRoles))
        } else if str_eq(s, "VpinDialog::UpdateSites") {
            Some(Event::VpinDialog(VpinDialog::UpdateSites))
        } else if str_eq(s, "VpinDialog::UpdateLevels") {
            Some(Event::VpinDialog(VpinDialog::UpdateLevels))
        } else if str_eq(s, "ChooseAltDist::GetDistributions") {
            Some(Event::ChooseAltDist(ChooseAltDist::GetDistributions))
        } else if str_eq(s, "Error") {
            Some(Event::Error)
        } else {
            None
        }
    }
}

/// Round trip: the text form of every topic parses back to that topic.
pub proof fn lemma_event_text_round_trip(e: Event)
    ensures
        spec_parse_event(spec_event_text(e)) == Some(e),
{
    reveal_strlit("VpinDialog::UpdateRoles");
    reveal_strlit("VpinDialog::UpdateSites");
    reveal_strlit("VpinDialog::UpdateLevels");
    reveal_strlit("ChooseAltDist::GetDistributions");
    reveal_strlit("Error");
    assert("VpinDialog::UpdateRoles"@[18] == 'R');
    assert("VpinDialog::UpdateSites"@[18] == 'S');
    assert("VpinDialog::UpdateRoles"@.len() == 23);
    assert("VpinDialog::UpdateSites"@.len() == 23);
    assert("VpinDialog::UpdateLevels"@.len() == 24);
    assert("ChooseAltDist::GetDistributions"@.len() == 31);
    assert("Error"@.len() == 5);
}

/// No two topics share a text form.
pub proof fn lemma_event_text_injective(e1: Event, e2: Event)
    ensures
        spec_event_text(e1) == spec_event_text(e2) ==> e1 == e2,
{
    lemma_event_text_round_trip(e1);
    lemma_event_text_round_trip(e2);
}

} // verus!
