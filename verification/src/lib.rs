//! Message protocol between a presentation thread and a long-lived worker
//! thread that owns a database connection.
//!
//! The worker consumes [`OMsg`] commands, answers each with an [`IMsg`]
//! result on a data queue, and only then raises an [`Event`] topic on a
//! separate notification channel.  The modules here hold the protocol
//! vocabulary, the pure transformations the worker applies to query rows,
//! the dispatch rules of the presentation side, and a verified model of
//! the enqueue-result-then-raise-topic handshake.

pub mod bridge;
pub mod cache;
pub mod choose_alt_dist;
pub mod event;
pub mod event_handler;
pub mod hierarchy;
pub mod incoming;
pub mod outgoing;
pub mod text;
pub mod worker;

pub use event::{ChooseAltDist, Event, ToEvent, VpinDialog};
pub use hierarchy::{LevelMap, LevelsError};
pub use incoming::{IChooseAltDist, IMsg, IVpinDialog, ToIMsg};
pub use outgoing::{OChooseAltDist, OMsg, OVpinDialog, ToOMsg};
