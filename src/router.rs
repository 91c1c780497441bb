//! Sorting inbound session events: chat goes to the command interpreter, a
//! member leaving is answered by removing them from the group.

use vstd::prelude::*;
use crate::interp::{interpret, outcome, CommandError, Sender};
use crate::roster::{Roster, RosterView};
use crate::session::{
    action_views, handle_index, lemma_handle_index_bounds, Action, ActionView, Channel,
    PlayerEntry, Snapshot,
};
use crate::text::words;

verus! {

/// The kind of channel a chat message came on.
#[derive(PartialEq, Eq, Structural, Clone, Copy, Debug)]
pub enum ChatChannel {
    /// A private message: it may hold a command.
    Direct,
    /// A message to the bot's group: it may hold a command.
    Group,
    /// Any other channel (everybody, system notices): never a command.
    Other,
}

/// An inbound session event.
pub enum Event {
    /// A chat message. `sender` is the session handle of whoever sent it, where
    /// the session names one; `draw` is a uniformly random number, drawn when
    /// the message arrived, that a roll in it uses.
    Chat { channel: ChatChannel, sender: Option<u64>, text: String, draw: u64 },
    /// The member with this session handle went offline or left.
    MemberLeft(u64),
    /// Anything else.
    Other,
}

/// Why an event could not be handled.
#[derive(PartialEq, Eq, Structural, Clone, Copy, Debug)]
pub enum RouteError {
    /// A chat message whose sender the live roster does not list.
    UnknownSender,
    /// The command in a chat message failed.
    Command(CommandError),
}

/// What handling `e` does on the roster `r` and the live state `players` and
/// `group`: the roster after it and the actions in order.
pub open spec fn route_outcome(
    r: RosterView,
    players: Seq<PlayerEntry>,
    group: Seq<u64>,
    e: &Event,
) -> Result<(RosterView, Seq<ActionView>), RouteError> {
    match e {
        Event::Chat { channel, sender, text, draw } => match channel {
            ChatChannel::Other => Ok((r, seq![])),
            _ => match sender {
                None => Err(RouteError::UnknownSender),
                Some(h) => match handle_index(players, *h) {
                    None => Err(RouteError::UnknownSender),
                    Some(k) => {
                        let ch = if *channel == ChatChannel::Direct {
                            Channel::Direct
                        } else {
                            Channel::Group
                        };
                        match outcome(
                            r,
                            players,
                            group,
                            *h,
                            players[k].alias@,
                            players[k].stable_id@,
                            ch,
                            words(text@),
                            *draw,
                        ) {
                            Ok(o) => Ok(o),
                            Err(c) => Err(RouteError::Command(c)),
                        }
                    },
                },
            },
        },
        Event::MemberLeft(h) => Ok((r, seq![ActionView::Remove(*h)])),
        Event::Other => Ok((r, seq![])),
    }
}

/// Handles one inbound event against `roster` and the live state `snap`.
/// On an error the roster is left as it was.
pub fn route(roster: &mut Roster, snap: &Snapshot, e: &Event) -> (r: Result<Vec<Action>, RouteError>)
    ensures
        match route_outcome(old(roster)@, snap.players@, snap.group@, e) {
            Ok(o) => r is Ok && final(roster)@ == o.0 && action_views(r->Ok_0@) == o.1,
            Err(err) => r == Err::<Vec<Action>, RouteError>(err) && final(roster)@ == old(roster)@,
        },
{
    match e {
        Event::Chat { channel, sender, text, draw } => {
            let ch = match channel {
                ChatChannel::Other => {
                    let out: Vec<Action> = Vec::new();
                    proof {
                        assert(action_views(out@) =~= Seq::<ActionView>::empty());
                    }
                    return Ok(out);
                },
                ChatChannel::Direct => Channel::Direct,
                ChatChannel::Group => Channel::Group,
            };
            let h = match sender {
                None => return Err(RouteError::UnknownSender),
                Some(h) => *h,
            };
            proof {
                lemma_handle_index_bounds(snap.players@, h);
            }
            let k = match snap.find_by_handle(h) {
                None => return Err(RouteError::UnknownSender),
                Some(k) => k,
            };
            let who = Sender {
                handle: h,
                alias: snap.players[k].alias.clone(),
                stable_id: snap.players[k].stable_id.clone(),
                channel: ch,
            };
            match interpret(roster, snap, &who, text.as_str(), *draw) {
                Ok(acts) => Ok(acts),
                Err(c) => Err(RouteError::Command(c)),
            }
        },
        Event::MemberLeft(h) => {
            let mut out: Vec<Action> = Vec::new();
            out.push(Action::RemoveFromGroup(*h));
            proof {
                assert(action_views(out@) =~= seq![ActionView::Remove(*h)]);
            }
            Ok(out)
        },
        Event::Other => {
            let out: Vec<Action> = Vec::new();
            proof {
                assert(action_views(out@) =~= Seq::<ActionView>::empty());
            }
            Ok(out)
        },
    }
}

} // verus!
