//! Command interpreter and action pipeline for a bot that sits in a live
//! multiplayer session, reads commands out of chat and answers with group
//! invitations, removals and replies.
//!
//! The session itself stays outside: each tick the caller polls it, takes a
//! snapshot of who is online and who is in the group, hands both to
//! [`Bot::tick`], and carries out the actions that come back.

mod bot;
mod command;
mod dispatch;
mod interp;
mod roster;
mod router;
mod session;
mod text;

pub use bot::{Bot, Poll, TickError, TickReport};
pub use command::{parse_kind, same_text, CommandKind};
pub use dispatch::Dispatcher;
pub use interp::{interpret, roll, CommandError, Sender};
pub use roster::{Banning, Promotion, Roster, Secrets};
pub use router::{route, ChatChannel, Event, RouteError};
pub use session::{Action, Channel, PlayerEntry, Snapshot};
pub use text::{decimal, join_labelled, parse_number, split_words};
