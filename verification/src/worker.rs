//! The decisions of the worker loop: which query each command asks for,
//! what the loop does to its control state, and how a query's outcome
//! becomes the result-and-topic pair sent back.
//!
//! The blocking pieces — receiving from the command queue and running
//! the finder against the database — stay with the caller that owns the
//! connection; every decision between them is here and verified.

use vstd::prelude::*;

verus! {

use crate::bridge::topic_matches;
use crate::event::{ChooseAltDist, Event, VpinDialog};
use crate::hierarchy::{build_level_map, spec_build_levels, LevelsError};
use crate::incoming::{IChooseAltDist, IMsg, IVpinDialog};
use crate::outgoing::{OChooseAltDist, OMsg, OVpinDialog};
use vstd::string::StringExecFns;

/// The finder query a command asks the worker to run.
#[derive(Debug, PartialEq)]
pub enum Query {
    AllRoles,
    AllSites,
    AllLevels { show: String },
    AllDistributions { package: String },
}

/// The query behind each command; `None` for `Quit`, which runs none.
pub open spec fn spec_query_of(cmd: OMsg) -> Option<Query> {
    match cmd {
        OMsg::VpinDialog(OVpinDialog::GetRoles) => Some(Query::AllRoles),
        OMsg::VpinDialog(OVpinDialog::GetSites) => Some(Query::AllSites),
        OMsg::VpinDialog(OVpinDialog::GetLevels(show)) => Some(Query::AllLevels { show }),
        OMsg::ChooseAltDist(OChooseAltDist::GetDistributions { package }) => Some(
            Query::AllDistributions { package },
        ),
        OMsg::Quit => None,
    }
}

/// Protocol completeness, worker side: every command except `Quit` has
/// exactly the one query the handler runs for it, and `Quit` has none.
pub proof fn lemma_every_command_has_a_query(cmd: OMsg)
    ensures
        (spec_query_of(cmd) is Some) <==> !(cmd is Quit),
{
}

/// What the database answered: the single string column of the matching
/// finder, row by row — or the text of the query error.
pub enum QueryOutcome {
    Rows(Vec<String>),
    Failed(String),
}

/// A result paired with the topic that announces it.
pub struct Delivery {
    pub msg: IMsg,
    pub topic: Event,
}

/// What the worker does with one query's outcome: deliver a result and
/// then its topic, or fail loudly over rows that break the query-layer
/// contract.
pub enum Response {
    Deliver(Delivery),
    Fatal(String),
}

/// The error text sent back when a query fails.
pub open spec fn spec_error_text(query: Query, err: Seq<char>) -> Seq<char> {
    match query {
        Query::AllRoles => "Unable to get roles from db: "@ + err,
        Query::AllSites => "Unable to get sites from db: "@ + err,
        Query::AllLevels { show } => "Unable to get levels from db for "@ + show@ + ": "@ + err,
        Query::AllDistributions { package: _ } => "Unable to get distributions from db: "@ + err,
    }
}

fn error_text(query: &Query, err: &str) -> (r: String)
    ensures
        r@ == spec_error_text(*query, err@),
{
    match query {
        Query::AllRoles => {
            let mut s = "Unable to get roles from db: ".to_owned();
            s.append(err);
            s
        },
        Query::AllSites => {
            let mut s = "Unable to get sites from db: ".to_owned();
            s.append(err);
            s
        },
        Query::AllLevels { show } => {
            let mut s = "Unable to get levels from db for ".to_owned();
            s.append(show.as_str());
            s.append(": ");
            s.append(err);
            s
        },
        Query::AllDistributions { package: _ } => {
            let mut s = "Unable to get distributions from db: ".to_owned();
            s.append(err);
            s
        },
    }
}

/// Turns one query's outcome into the worker's answer.
///
/// A failed query is never fatal: it becomes an `Error` result under the
/// `Error` topic, and the loop serves on.  A successful query becomes
/// the payload its command asked for — the rows verbatim for roles,
/// sites and distributions, the rebuilt hierarchy for levels.  Only
/// malformed level rows are fatal.  Every delivery matches its topic.
pub fn respond(query: &Query, outcome: QueryOutcome) -> (r: Response)
    ensures
        (r matches Response::Deliver(d) ==> topic_matches(d.topic, d.msg)),
        match outcome {
            QueryOutcome::Failed(e) => (r matches Response::Deliver(d) && d.msg matches IMsg::Error(
                t,
            ) && d.topic == Event::Error && t@ == spec_error_text(*query, e@)),
            QueryOutcome::Rows(rows) => match *query {
                Query::AllRoles => r == Response::Deliver(
                    (Delivery {
                        msg: IMsg::VpinDialog(IVpinDialog::Roles(rows)),
                        topic: Event::VpinDialog(VpinDialog::UpdateRoles),
                    }),
                ),
                Query::AllSites => r == Response::Deliver(
                    (Delivery {
                        msg: IMsg::VpinDialog(IVpinDialog::Sites(rows)),
                        topic: Event::VpinDialog(VpinDialog::UpdateSites),
                    }),
                ),
                Query::AllDistributions { package: _ } => r == Response::Deliver(
                    (Delivery {
                        msg: IMsg::ChooseAltDist(IChooseAltDist::Distributions(rows)),
                        topic: Event::ChooseAltDist(ChooseAltDist::GetDistributions),
                    }),
                ),
                Query::AllLevels { show: _ } => match spec_build_levels(rows.deep_view()) {
                    Some(entries) => (r matches Response::Deliver(d) && d.msg matches IMsg::VpinDialog(
                        IVpinDialog::Levels(m),
                    ) && d.topic == Event::VpinDialog(VpinDialog::UpdateLevels) && m@ == entries
                        && m.wf()),
                    None => (r matches Response::Fatal(t) && (if rows@.len() == 0 {
                        t@ == "empty result from levels query"@
                    } else {
                        t@ == "Incorrect number of pieces from get_all_levels"@
                    })),
                },
            },
        },
{
    match outcome {
        QueryOutcome::Failed(e) => Response::Deliver(
            Delivery { msg: IMsg::Error(error_text(query, e.as_str())), topic: Event::Error },
        ),
        QueryOutcome::Rows(rows) => match query {
            Query::AllRoles => Response::Deliver(
                Delivery {
                    msg: IMsg::VpinDialog(IVpinDialog::Roles(rows)),
                    topic: Event::VpinDialog(VpinDialog::UpdateRoles),
                },
            ),
            Query::AllSites => Response::Deliver(
                Delivery {
                    msg: IMsg::VpinDialog(IVpinDialog::Sites(rows)),
                    topic: Event::VpinDialog(VpinDialog::UpdateSites),
                },
            ),
            Query::AllDistributions { package: _ } => Response::Deliver(
                Delivery {
                    msg: IMsg::ChooseAltDist(IChooseAltDist::Distributions(rows)),
                    topic: Event::ChooseAltDist(ChooseAltDist::GetDistributions),
                },
            ),
            Query::AllLevels { show: _ } => match build_level_map(&rows) {
                Ok(m) => Response::Deliver(
                    Delivery {
                        msg: IMsg::VpinDialog(IVpinDialog::Levels(m)),
                        topic: Event::VpinDialog(VpinDialog::UpdateLevels),
                    },
                ),
                Err(LevelsError::NoRows) => Response::Fatal(
                    "empty result from levels query".to_owned(),
                ),
                Err(LevelsError::MalformedRow { row: _ }) => Response::Fatal(
                    "Incorrect number of pieces from get_all_levels".to_owned(),
                ),
            },
        },
    }
}

/// The one delivery made when the database connection cannot be
/// established; the worker then terminates without ever serving.
pub fn connection_error_delivery(err: String) -> (d: Delivery)
    ensures
        d.msg == IMsg::Error(err),
        d.topic == Event::Error,
        topic_matches(d.topic, d.msg),
{
    Delivery { msg: IMsg::Error(err), topic: Event::Error }
}

/// The two states of the worker loop.
#[derive(Debug, PartialEq, Eq, Structural, Clone, Copy)]
pub enum WorkerState {
    Running,
    Terminated,
}

/// The control state of the worker loop: it consumes commands while
/// running, and consumes none once terminated.
pub struct Worker {
    state: WorkerState,
}

impl Worker {
    pub closed spec fn is_running(&self) -> bool {
        self.state == WorkerState::Running
    }

    pub fn new() -> (w: Worker)
        ensures
            w.is_running(),
    {
        Worker { state: WorkerState::Running }
    }

    /// Whether the loop will block for another command.
    pub fn accepts_commands(&self) -> (r: bool)
        ensures
            r == self.is_running(),
    {
        self.state == WorkerState::Running
    }

    /// Consumes one command.  `Quit` terminates the loop and runs no
    /// query — commands still queued behind it are never consumed; any
    /// other command keeps the loop running and names the query to run.
    pub fn handle_command(&mut self, cmd: &OMsg) -> (r: Option<Query>)
        requires
            old(self).is_running(),
        ensures
            final(self).is_running() == !(*cmd is Quit),
            r == spec_query_of(*cmd),
    {
        match cmd {
            OMsg::Quit => {
                self.state = WorkerState::Terminated;
                None
            },
            OMsg::VpinDialog(OVpinDialog::GetRoles) => Some(Query::AllRoles),
            OMsg::VpinDialog(OVpinDialog::GetSites) => Some(Query::AllSites),
            OMsg::VpinDialog(OVpinDialog::GetLevels(show)) => Some(
                Query::AllLevels { show: show.clone() },
            ),
            OMsg::ChooseAltDist(OChooseAltDist::GetDistributions { package }) => Some(
                Query::AllDistributions { package: package.clone() },
            ),
        }
    }
}

} // verus!
