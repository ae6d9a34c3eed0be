//! Results sent from the worker thread back to the presentation thread.
//!
//! Each result mirrors the command that requested it; `Error` is the one
//! cross-cutting case and may answer any command.

use vstd::prelude::*;

verus! {

use crate::hierarchy::LevelMap;

/// Conversion of a namespaced result into the top-level [`IMsg`].
pub trait ToIMsg: Sized {
    /// The message that [`Self::to_imsg`] returns.
    spec fn spec_imsg(self) -> IMsg;

    fn to_imsg(self) -> (r: IMsg)
        ensures
            r == self.spec_imsg(),
    ;
}

/// Results for the version-pin dialog.
pub enum IVpinDialog {
    Roles(Vec<String>),
    Sites(Vec<String>),
    Levels(LevelMap),
}

/// Results for the alternate-distribution chooser.
pub enum IChooseAltDist {
    Distributions(Vec<String>),
}

/// A result sent from the worker to the presentation thread.
pub enum IMsg {
    VpinDialog(IVpinDialog),
    ChooseAltDist(IChooseAltDist),
    Error(String),
}

impl ToIMsg for IVpinDialog {
    open spec fn spec_imsg(self) -> IMsg {
        IMsg::VpinDialog(self)
    }

    fn to_imsg(self) -> (r: IMsg) {
        IMsg::VpinDialog(self)
    }
}

impl ToIMsg for IChooseAltDist {
    open spec fn spec_imsg(self) -> IMsg {
        IMsg::ChooseAltDist(self)
    }

    fn to_imsg(self) -> (r: IMsg) {
        IMsg::ChooseAltDist(self)
    }
}

} // verus!
