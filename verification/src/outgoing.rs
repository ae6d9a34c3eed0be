//! Commands sent from the presentation thread to the worker thread.
//!
//! A command is immutable once constructed and carries only the parameters
//! of one query.  `Quit` is the single shutdown signal.

use vstd::prelude::*;

verus! {

/// Commands of the version-pin dialog.
#[derive(Debug, PartialEq)]
pub enum OVpinDialog {
    GetRoles,
    GetSites,
    GetLevels(String),
}

/// Commands of the alternate-distribution chooser.
#[derive(Debug, PartialEq)]
pub enum OChooseAltDist {
    GetDistributions { package: String },
}

/// Conversion of a namespaced command into the top-level [`OMsg`].
pub trait ToOMsg: Sized {
    /// The message that [`Self::to_omsg`] returns.
    spec fn spec_omsg(self) -> OMsg;

    fn to_omsg(self) -> (r: OMsg)
        ensures
            r == self.spec_omsg(),
    ;
}

/// A command sent from the presentation thread to the worker.
#[derive(Debug, PartialEq)]
pub enum OMsg {
    VpinDialog(OVpinDialog),
    ChooseAltDist(OChooseAltDist),
    Quit,
}

impl ToOMsg for OVpinDialog {
    open spec fn spec_omsg(self) -> OMsg {
        OMsg::VpinDialog(self)
    }

    fn to_omsg(self) -> (r: OMsg) {
        OMsg::VpinDialog(self)
    }
}

impl ToOMsg for OChooseAltDist {
    open spec fn spec_omsg(self) -> OMsg {
        OMsg::ChooseAltDist(self)
    }

    fn to_omsg(self) -> (r: OMsg) {
        OMsg::ChooseAltDist(self)
    }
}

/// The batch of commands the presentation thread sends when a dialog opens,
/// so that its selectors are populated before the user interacts.
pub fn bootstrap_commands(default_show: &str) -> (r: Vec<OMsg>)
    ensures
        r@.len() == 3,
        r@[0] == OMsg::VpinDialog(OVpinDialog::GetRoles),
        r@[1] == OMsg::VpinDialog(OVpinDialog::GetSites),
        (r@[2] matches OMsg::VpinDialog(OVpinDialog::GetLevels(show)) && show@ == default_show@),
{
    let mut commands: Vec<OMsg> = Vec::new();
    commands.push(OVpinDialog::GetRoles.to_omsg());
    commands.push(OVpinDialog::GetSites.to_omsg());
    commands.push(OVpinDialog::GetLevels(default_show.to_owned()).to_omsg());
    commands
}

} // verus!
