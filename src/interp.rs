//! The command interpreter: from a chat message and its sender to the
//! actions that answer it, with the roster changes that privileged commands
//! make.

use vstd::prelude::*;
use crate::command::{kind_of, parse_kind, CommandKind};
use crate::roster::{Banning, Promotion, Roster, RosterView};
use crate::session::{
    action_views, alias_index, display_names, handle_index, lemma_alias_index_bounds, lemma_handle_index_bounds,
    reply_on, Action, ActionView, Channel, PlayerEntry, Snapshot,
};
use crate::text::{decimal, digits_of, join_labelled, labelled, number_of, parse_number, split_words, views, words};

verus! {

/// Who sent a command, resolved against the live roster, and the kind of
/// channel it came on.
pub struct Sender {
    pub handle: u64,
    pub alias: String,
    pub stable_id: String,
    pub channel: Channel,
}

/// Why a message could not be answered.
#[derive(PartialEq, Eq, Structural, Clone, Copy, Debug)]
pub enum CommandError {
    /// `roll` without a decimal number after it.
    BadNumber,
    /// `roll` with a bound below two: no value lies in `[1, n)`.
    BoundTooSmall,
}

/// The value a roll with bound `n` gives for the random draw `draw`.
pub open spec fn roll_value(n: u64, draw: u64) -> u64 {
    (1 + draw % ((n - 1) as u64)) as u64
}

/// Draws a value in `[1, n)` out of `draw`, a uniformly random number, as
/// `1 + draw % (n - 1)`: every value is possible, and the bias that the
/// remainder brings is below `n / 2^64`. A bound below two has no such value.
pub fn roll(n: u64, draw: u64) -> (r: Result<u64, CommandError>)
    ensures
        n > 1 ==> r == Ok::<u64, CommandError>(roll_value(n, draw)),
        n > 1 ==> 1 <= roll_value(n, draw) < n,
        n <= 1 ==> r == Err::<u64, CommandError>(CommandError::BoundTooSmall),
{
    if n <= 1 {
        Err(CommandError::BoundTooSmall)
    } else {
        Ok(1 + draw % (n - 1))
    }
}

/// The reply for a name that no online player has.
pub open spec fn not_found(name: Seq<char>) -> Seq<char> {
    "Failed to find player "@ + name
}

/// What a privileged command with no name after it is missing.
pub open spec fn verb_of(kind: CommandKind) -> Seq<char> {
    match kind {
        CommandKind::Admin => "promote"@,
        CommandKind::Ban => "ban"@,
        CommandKind::Unban => "unban"@,
        _ => "kick"@,
    }
}

/// What a command that names players does for the one name `name`, on the
/// roster `r`, answering `to`.
pub open spec fn name_step(
    kind: CommandKind,
    players: Seq<PlayerEntry>,
    to: Seq<char>,
    r: RosterView,
    name: Seq<char>,
) -> (RosterView, Seq<ActionView>) {
    match alias_index(players, name) {
        None => (r, seq![ActionView::Reply(to, not_found(name))]),
        Some(k) => {
            let h = players[k].handle;
            let id = players[k].stable_id@;
            match kind {
                CommandKind::Invite => (
                    r,
                    seq![ActionView::Invite(h), ActionView::Reply(to, "Invited "@ + name)],
                ),
                CommandKind::Admin => if r.is_banned(id) {
                    (r, seq![ActionView::Reply(to, name + " is banned and cannot be promoted"@)])
                } else if r.is_admin(id) {
                    (r, seq![ActionView::Reply(to, name + " is already an admin"@)])
                } else {
                    (
                        r.promoted(id),
                        seq![ActionView::Save, ActionView::Reply(to, "Promoted "@ + name)],
                    )
                },
                CommandKind::Ban => if r.is_admin(id) {
                    (r, seq![ActionView::Reply(to, name + " is an admin and cannot be banned"@)])
                } else if r.is_banned(id) {
                    (
                        r,
                        seq![
                            ActionView::Remove(h),
                            ActionView::Reply(to, name + " is already banned"@),
                        ],
                    )
                } else {
                    (
                        r.with_ban(id),
                        seq![
                            ActionView::Remove(h),
                            ActionView::Save,
                            ActionView::Reply(to, "Banned "@ + name),
                        ],
                    )
                },
                CommandKind::Unban => if r.is_banned(id) {
                    (
                        r.unbanned(id),
                        seq![ActionView::Save, ActionView::Reply(to, "Unbanned "@ + name)],
                    )
                } else {
                    (r, seq![ActionView::Reply(to, name + " is not banned"@)])
                },
                _ => (r, seq![ActionView::Remove(h)]),
            }
        },
    }
}

/// `name_step` for each of `names` in turn, the actions in the same order.
pub open spec fn names_run(
    kind: CommandKind,
    players: Seq<PlayerEntry>,
    to: Seq<char>,
    r: RosterView,
    names: Seq<Seq<char>>,
) -> (RosterView, Seq<ActionView>)
    decreases names.len(),
{
    if names.len() == 0 {
        (r, seq![])
    } else {
        let prev = names_run(kind, players, to, r, names.drop_last());
        let next = name_step(kind, players, to, prev.0, names.last());
        (next.0, prev.1 + next.1)
    }
}

/// The aliases of the group members that the live roster lists, in group order.
pub open spec fn member_aliases(players: Seq<PlayerEntry>, group: Seq<u64>) -> Seq<Seq<char>>
    decreases group.len(),
{
    if group.len() == 0 {
        seq![]
    } else {
        let prev = member_aliases(players, group.drop_last());
        match handle_index(players, group.last()) {
            Some(k) => prev.push(players[k].alias@),
            None => prev,
        }
    }
}

/// The removal of every group member, in group order.
pub open spec fn removals(group: Seq<u64>) -> Seq<ActionView> {
    group.map_values(|h: u64| ActionView::Remove(h))
}

/// What the message whose words are `ws` does on the roster `r` and the live
/// state `players` and `group`, sent on a channel of kind `ch` by the player
/// with session handle `handle`, alias `to` and stable identifier `me`; `draw`
/// is the random number a roll uses. The result holds the roster after the
/// command and the actions in the order they are to be carried out.
pub open spec fn outcome(
    r: RosterView,
    players: Seq<PlayerEntry>,
    group: Seq<u64>,
    handle: u64,
    to: Seq<char>,
    me: Seq<char>,
    ch: Channel,
    ws: Seq<Seq<char>>,
    draw: u64,
) -> Result<(RosterView, Seq<ActionView>), CommandError> {
    let args = ws.drop_first();
    let refused = (r, seq![ActionView::Reply(to, "You are not an admin"@)]);
    let missing = |kind: CommandKind|
        (r, seq![ActionView::Reply(to, "You must specify a player to "@ + verb_of(kind))]);
    if ws.len() == 0 {
        Ok((r, seq![]))
    } else {
        match kind_of(ws[0]) {
            None => Ok((r, seq![])),
            Some(CommandKind::Invite) => if r.is_banned(me) {
                Ok((r, seq![ActionView::Reply(to, "You are banned"@)]))
            } else if args.len() == 0 {
                Ok((r, seq![ActionView::Invite(handle)]))
            } else {
                Ok(names_run(CommandKind::Invite, players, to, r, args))
            },
            Some(CommandKind::KickAll) => if !r.is_admin(me) {
                Ok(refused)
            } else {
                Ok((r, removals(group)))
            },
            Some(CommandKind::Info) => Ok(
                (
                    r,
                    seq![
                        reply_on(ch, to, labelled("Members:"@, member_aliases(players, group))),
                        reply_on(
                            ch,
                            to,
                            labelled("Administrators:"@, display_names(players, r.administrators)),
                        ),
                        reply_on(ch, to, labelled("Banned:"@, display_names(players, r.banned))),
                    ],
                ),
            ),
            Some(CommandKind::Roll) => if args.len() == 0 {
                Err(CommandError::BadNumber)
            } else {
                match number_of(args[0]) {
                    None => Err(CommandError::BadNumber),
                    Some(n) => if n <= 1 {
                        Err(CommandError::BoundTooSmall)
                    } else {
                        Ok(
                            (
                                r,
                                seq![
                                    reply_on(
                                        ch,
                                        to,
                                        to + " rolled "@ + digits_of(roll_value(n, draw) as nat),
                                    ),
                                ],
                            ),
                        )
                    },
                }
            },
            Some(CommandKind::Cheese) => if group.contains(handle) {
                Ok((r, seq![reply_on(ch, to, "Cheese!"@)]))
            } else {
                Ok((r, seq![]))
            },
            Some(kind) => if !(r.is_admin(me) || (kind == CommandKind::Admin
                && r.administrators.len() == 0)) {
                Ok(refused)
            } else if args.len() == 0 {
                Ok(missing(kind))
            } else {
                Ok(names_run(kind, players, to, r, args))
            },
        }
    }
}

proof fn lemma_command_words()
    ensures
        kind_of("kick"@) == Some(CommandKind::Kick),
        kind_of("ban"@) == Some(CommandKind::Ban),
        kind_of("admin"@) == Some(CommandKind::Admin),
        kind_of("info"@) == Some(CommandKind::Info),
        kind_of("cheese"@) == Some(CommandKind::Cheese),
{
    reveal_strlit("invite");
    reveal_strlit("kick");
    reveal_strlit("kick-all");
    reveal_strlit("admin");
    reveal_strlit("ban");
    reveal_strlit("unban");
    reveal_strlit("info");
    reveal_strlit("roll");
    reveal_strlit("cheese");
    assert("invite"@.len() == 6);
    assert("kick"@.len() == 4);
    assert("kick-all"@.len() == 8);
    assert("admin"@.len() == 5);
    assert("ban"@.len() == 3);
    assert("unban"@.len() == 5);
    assert("info"@.len() == 4);
    assert("roll"@.len() == 4);
    assert("cheese"@.len() == 6);
    assert("invite"@[0] == 'i' && "cheese"@[0] == 'c');
    assert("kick"@[0] == 'k' && "info"@[0] == 'i');
}

/// `kick a b` from an administrator, where `a` names an online player and `b`
/// names nobody, removes that player and then tells the sender that `b` was
/// not found, and does nothing else.
pub proof fn lemma_kick_found_then_missing(
    r: RosterView,
    players: Seq<PlayerEntry>,
    group: Seq<u64>,
    handle: u64,
    to: Seq<char>,
    me: Seq<char>,
    ch: Channel,
    a: Seq<char>,
    b: Seq<char>,
    draw: u64,
)
    requires
        r.is_admin(me),
        alias_index(players, a) is Some,
        alias_index(players, b) is None,
    ensures
        outcome(r, players, group, handle, to, me, ch, seq!["kick"@, a, b], draw) == Ok::<
            (RosterView, Seq<ActionView>),
            CommandError,
        >(
            (
                r,
                seq![
                    ActionView::Remove(players[alias_index(players, a)->Some_0].handle),
                    ActionView::Reply(to, not_found(b)),
                ],
            ),
        ),
{
    lemma_command_words();
    let ws = seq!["kick"@, a, b];
    let args = ws.drop_first();
    assert(args =~= seq![a, b]);
    assert(args.drop_last() =~= seq![a]);
    assert(seq![a].drop_last() =~= Seq::<Seq<char>>::empty());
    lemma_alias_index_bounds(players, a);
    let ra = ActionView::Remove(players[alias_index(players, a)->Some_0].handle);
    let e = Seq::<Seq<char>>::empty();
    assert(names_run(CommandKind::Kick, players, to, r, e) == (r, Seq::<ActionView>::empty()));
    assert(seq![a].last() == a);
    let first = names_run(CommandKind::Kick, players, to, r, seq![a]);
    assert(name_step(CommandKind::Kick, players, to, r, a).1 == seq![ra]);
    assert(name_step(CommandKind::Kick, players, to, r, a).0 == r);
    assert(Seq::<ActionView>::empty() + seq![ra] =~= seq![ra]);
    assert(first.1 =~= seq![ra]);
    assert(args.last() == b);
    let both = names_run(CommandKind::Kick, players, to, r, args);
    assert(both.1 =~= seq![
        ActionView::Remove(players[alias_index(players, a)->Some_0].handle),
        ActionView::Reply(to, not_found(b)),
    ]);
}

/// `ban`, with any names after it, from a sender who is not an administrator
/// leaves the roster as it was and answers with the one direct reply that the
/// sender is not an administrator: no removal, no save.
pub proof fn lemma_ban_refused(
    r: RosterView,
    players: Seq<PlayerEntry>,
    group: Seq<u64>,
    handle: u64,
    to: Seq<char>,
    me: Seq<char>,
    ch: Channel,
    names: Seq<Seq<char>>,
    draw: u64,
)
    requires
        !r.is_admin(me),
    ensures
        outcome(r, players, group, handle, to, me, ch, seq!["ban"@] + names, draw) == Ok::<
            (RosterView, Seq<ActionView>),
            CommandError,
        >((r, seq![ActionView::Reply(to, "You are not an admin"@)])),
{
    lemma_command_words();
    assert((seq!["ban"@] + names)[0] == "ban"@);
}

/// While there is no administrator, `admin n` from anybody, where `n` names an
/// online player who is not banned, makes that player's stable identifier an
/// administrator and saves the roster.
pub proof fn lemma_admin_bootstrap(
    r: RosterView,
    players: Seq<PlayerEntry>,
    group: Seq<u64>,
    handle: u64,
    to: Seq<char>,
    me: Seq<char>,
    ch: Channel,
    n: Seq<char>,
    draw: u64,
)
    requires
        r.administrators.len() == 0,
        alias_index(players, n) is Some,
        !r.is_banned(players[alias_index(players, n)->Some_0].stable_id@),
    ensures
        ({
            let id = players[alias_index(players, n)->Some_0].stable_id@;
            let o = outcome(r, players, group, handle, to, me, ch, seq!["admin"@, n], draw);
            &&& o is Ok
            &&& o->Ok_0.0.is_admin(id)
            &&& o->Ok_0.0 == r.promoted(id)
            &&& o->Ok_0.1 == seq![ActionView::Save, ActionView::Reply(to, "Promoted "@ + n)]
        }),
{
    lemma_command_words();
    lemma_alias_index_bounds(players, n);
    let ws = seq!["admin"@, n];
    assert(ws.drop_first() =~= seq![n]);
    assert(seq![n].drop_last() =~= Seq::<Seq<char>>::empty());
    assert(seq![n].last() == n);
    let e = Seq::<Seq<char>>::empty();
    assert(names_run(CommandKind::Admin, players, to, r, e) == (r, Seq::<ActionView>::empty()));
    let id = players[alias_index(players, n)->Some_0].stable_id@;
    assert(!r.is_admin(id));
    assert(r.administrators.push(id)[0] == id);
    assert(Seq::<ActionView>::empty() + seq![ActionView::Save, ActionView::Reply(to, "Promoted "@ + n)]
        =~= seq![ActionView::Save, ActionView::Reply(to, "Promoted "@ + n)]);
}

/// `admin n` from an administrator, or from anybody while there is none, where
/// `n` names an online player: if that player's stable identifier is not
/// banned it ends up an administrator and still not banned, and the roster is
/// saved unless it already was one; if it is banned, nothing changes but one reply, and nothing is saved.
pub proof fn lemma_admin_command(
    r: RosterView,
    players: Seq<PlayerEntry>,
    group: Seq<u64>,
    handle: u64,
    to: Seq<char>,
    me: Seq<char>,
    ch: Channel,
    n: Seq<char>,
    draw: u64,
)
    requires
        r.is_admin(me) || r.administrators.len() == 0,
        alias_index(players, n) is Some,
    ensures
        ({
            let id = players[alias_index(players, n)->Some_0].stable_id@;
            let o = outcome(r, players, group, handle, to, me, ch, seq!["admin"@, n], draw);
            &&& o is Ok
            &&& !r.is_banned(id) ==> {
                &&& o->Ok_0.0 == r.promoted(id)
                &&& o->Ok_0.0.is_admin(id)
                &&& !o->Ok_0.0.is_banned(id)
                &&& o->Ok_0.0.banned == r.banned
                &&& !r.is_admin(id) ==> o->Ok_0.1.contains(ActionView::Save)
            }
            &&& r.is_banned(id) ==> {
                &&& o->Ok_0.0 == r
                &&& o->Ok_0.1 == seq![
                    ActionView::Reply(to, n + " is banned and cannot be promoted"@),
                ]
            }
        }),
{
    lemma_command_words();
    lemma_alias_index_bounds(players, n);
    let ws = seq!["admin"@, n];
    assert(ws.drop_first() =~= seq![n]);
    assert(seq![n].drop_last() =~= Seq::<Seq<char>>::empty());
    assert(seq![n].last() == n);
    let e = Seq::<Seq<char>>::empty();
    assert(names_run(CommandKind::Admin, players, to, r, e) == (r, Seq::<ActionView>::empty()));
    let id = players[alias_index(players, n)->Some_0].stable_id@;
    let step = name_step(CommandKind::Admin, players, to, r, n);
    assert(Seq::<ActionView>::empty() + step.1 =~= step.1);
    if !r.is_banned(id) {
        if !r.is_admin(id) {
            assert(r.administrators.push(id)[r.administrators.len() as int] == id);
            assert(step.1[0] == ActionView::Save);
        } else {
            assert(step.1 == seq![ActionView::Reply(to, n + " is already an admin"@)]);
        }
    }
}

/// While there is no administrator, `admin n` from anybody, where `n` names an
/// online player who is not banned, makes that player an administrator: their
/// own `kick a` that follows, where `a` names an online player, removes that
/// player and answers nothing else.
pub proof fn lemma_bootstrap_then_kick(
    r: RosterView,
    players: Seq<PlayerEntry>,
    group: Seq<u64>,
    handle: u64,
    to: Seq<char>,
    me: Seq<char>,
    ch: Channel,
    n: Seq<char>,
    a: Seq<char>,
    ch2: Channel,
    draw: u64,
)
    requires
        r.administrators.len() == 0,
        alias_index(players, n) is Some,
        alias_index(players, a) is Some,
        !r.is_banned(players[alias_index(players, n)->Some_0].stable_id@),
    ensures
        ({
            let p = players[alias_index(players, n)->Some_0];
            let o = outcome(r, players, group, handle, to, me, ch, seq!["admin"@, n], draw);
            let r1 = o->Ok_0.0;
            &&& o is Ok
            &&& outcome(
                r1,
                players,
                group,
                p.handle,
                p.alias@,
                p.stable_id@,
                ch2,
                seq!["kick"@, a],
                draw,
            ) == Ok::<(RosterView, Seq<ActionView>), CommandError>(
                (r1, seq![ActionView::Remove(players[alias_index(players, a)->Some_0].handle)]),
            )
        }),
{
    lemma_admin_command(r, players, group, handle, to, me, ch, n, draw);
    lemma_command_words();
    lemma_alias_index_bounds(players, a);
    let o = outcome(r, players, group, handle, to, me, ch, seq!["admin"@, n], draw);
    let r1 = o->Ok_0.0;
    let ws = seq!["kick"@, a];
    assert(ws.drop_first() =~= seq![a]);
    assert(seq![a].drop_last() =~= Seq::<Seq<char>>::empty());
    assert(seq![a].last() == a);
    let p = players[alias_index(players, n)->Some_0];
    assert(r1.is_admin(p.stable_id@));
    let e = Seq::<Seq<char>>::empty();
    assert(names_run(CommandKind::Kick, players, p.alias@, r1, e) == (r1, Seq::<ActionView>::empty()));
    let ra = ActionView::Remove(players[alias_index(players, a)->Some_0].handle);
    let step = name_step(CommandKind::Kick, players, p.alias@, r1, a);
    assert(step.1 == seq![ra]);
    assert(Seq::<ActionView>::empty() + seq![ra] =~= seq![ra]);
}

/// `info` sent on a direct channel is answered by exactly three direct
/// replies: the group members, the administrators and the banned, each a list
/// of aliases (an identifier for somebody offline) after its label, in that
/// order; the roster is left as it was.
pub proof fn lemma_info_direct(
    r: RosterView,
    players: Seq<PlayerEntry>,
    group: Seq<u64>,
    handle: u64,
    to: Seq<char>,
    me: Seq<char>,
    draw: u64,
)
    ensures
        outcome(r, players, group, handle, to, me, Channel::Direct, seq!["info"@], draw) == Ok::<
            (RosterView, Seq<ActionView>),
            CommandError,
        >(
            (
                r,
                seq![
                    ActionView::Reply(to, labelled("Members:"@, member_aliases(players, group))),
                    ActionView::Reply(
                        to,
                        labelled("Administrators:"@, display_names(players, r.administrators)),
                    ),
                    ActionView::Reply(to, labelled("Banned:"@, display_names(players, r.banned))),
                ],
            ),
        ),
{
    lemma_command_words();
}

/// `cheese` from a sender who is not in the group is answered by nothing.
pub proof fn lemma_cheese_outside_group(
    r: RosterView,
    players: Seq<PlayerEntry>,
    group: Seq<u64>,
    handle: u64,
    to: Seq<char>,
    me: Seq<char>,
    ch: Channel,
    draw: u64,
)
    requires
        !group.contains(handle),
    ensures
        outcome(r, players, group, handle, to, me, ch, seq!["cheese"@], draw) == Ok::<
            (RosterView, Seq<ActionView>),
            CommandError,
        >((r, seq![])),
{
    lemma_command_words();
}

fn text_of(prefix: &str, name: &str) -> (r: String)
    ensures
        r@ == prefix@ + name@,
{
    let mut s = String::from_str(prefix);
    s.append(name);
    s
}

fn push_action(out: &mut Vec<Action>, a: Action)
    ensures
        action_views(final(out)@) == action_views(old(out)@).push(a@),
{
    let ghost before = out@;
    out.push(a);
    proof {
        assert(action_views(out@) =~= action_views(before).push(a@));
    }
}

fn push_reply(out: &mut Vec<Action>, to: &String, text: String)
    ensures
        action_views(final(out)@) == action_views(old(out)@).push(ActionView::Reply(to@, text@)),
{
    push_action(out, Action::SendDirectReply(to.clone(), text));
}

/// The action that sends `text` to the sender `to` on the kind of channel `ch`.
fn reply_action(ch: Channel, to: &String, text: String) -> (r: Action)
    ensures
        r@ == reply_on(ch, to@, text@),
{
    match ch {
        Channel::Direct => Action::SendDirectReply(to.clone(), text),
        Channel::Group => Action::SendGroupMessage(text),
        Channel::Broadcast => Action::BroadcastMessage(text),
    }
}

fn verb(kind: CommandKind) -> (r: &'static str)
    ensures
        r@ == verb_of(kind),
{
    match kind {
        CommandKind::Admin => "promote",
        CommandKind::Ban => "ban",
        CommandKind::Unban => "unban",
        _ => "kick",
    }
}

/// Carries out a command that names players for the one name `name`.
fn apply_name(
    kind: CommandKind,
    roster: &mut Roster,
    snap: &Snapshot,
    to: &String,
    name: &String,
    out: &mut Vec<Action>,
)
    ensures
        ({
            let s = name_step(kind, snap.players@, to@, old(roster)@, name@);
            &&& final(roster)@ == s.0
            &&& action_views(final(out)@) == action_views(old(out)@) + s.1
        }),
{
    let ghost before = action_views(out@);
    proof {
        lemma_alias_index_bounds(snap.players@, name@);
    }
    match snap.find_by_alias(name) {
        None => {
            push_reply(out, to, text_of("Failed to find player ", name.as_str()));
            proof {
                assert(action_views(out@) =~= before + seq![ActionView::Reply(to@, not_found(name@))]);
            }
        },
        Some(k) => {
            let h = snap.players[k].handle;
            let id = &snap.players[k].stable_id;
            match kind {
                CommandKind::Invite => {
                    push_action(out, Action::SendGroupInvite(h));
                    push_reply(out, to, text_of("Invited ", name.as_str()));
                },
                CommandKind::Admin => {
                    match roster.promote(id) {
                        Promotion::RefusedBanned => {
                            push_reply(out, to, text_of(name.as_str(), " is banned and cannot be promoted"));
                        },
                        Promotion::AlreadyAdmin => {
                            push_reply(out, to, text_of(name.as_str(), " is already an admin"));
                        },
                        Promotion::Promoted => {
                            push_action(out, Action::SaveRoster);
                            push_reply(out, to, text_of("Promoted ", name.as_str()));
                        },
                    }
                },
                CommandKind::Ban => {
                    match roster.ban(id) {
                        Banning::RefusedAdmin => {
                            push_reply(out, to, text_of(name.as_str(), " is an admin and cannot be banned"));
                        },
                        Banning::AlreadyBanned => {
                            push_action(out, Action::RemoveFromGroup(h));
                            push_reply(out, to, text_of(name.as_str(), " is already banned"));
                        },
                        Banning::Banned => {
                            push_action(out, Action::RemoveFromGroup(h));
                            push_action(out, Action::SaveRoster);
                            push_reply(out, to, text_of("Banned ", name.as_str()));
                        },
                    }
                },
                CommandKind::Unban => {
                    if roster.unban(id) {
                        push_action(out, Action::SaveRoster);
                        push_reply(out, to, text_of("Unbanned ", name.as_str()));
                    } else {
                        push_reply(out, to, text_of(name.as_str(), " is not banned"));
                    }
                },
                _ => {
                    push_action(out, Action::RemoveFromGroup(h));
                },
            }
            proof {
                let s = name_step(kind, snap.players@, to@, old(roster)@, name@);
                assert(action_views(out@) =~= before + s.1);
            }
        },
    }
}

/// Carries out a command that names players for each word of `ws` after the
/// first, in order.
fn apply_names(
    kind: CommandKind,
    roster: &mut Roster,
    snap: &Snapshot,
    to: &String,
    ws: &Vec<String>,
) -> (r: Vec<Action>)
    requires
        ws@.len() >= 1,
    ensures
        ({
            let s = names_run(kind, snap.players@, to@, old(roster)@, views(ws@).drop_first());
            &&& final(roster)@ == s.0
            &&& action_views(r@) == s.1
        }),
{
    let mut out: Vec<Action> = Vec::new();
    let ghost r0 = roster@;
    let mut i: usize = 1;
    proof {
        assert(views(ws@).subrange(1, 1) =~= Seq::<Seq<char>>::empty());
        assert(action_views(out@) =~= Seq::<ActionView>::empty());
    }
    while i < ws.len()
        invariant
            1 <= i <= ws@.len(),
            ({
                let s = names_run(kind, snap.players@, to@, r0, views(ws@).subrange(1, i as int));
                &&& roster@ == s.0
                &&& action_views(out@) == s.1
            }),
        decreases ws@.len() - i,
    {
        proof {
            let names = views(ws@).subrange(1, i + 1);
            assert(names.drop_last() =~= views(ws@).subrange(1, i as int));
            assert(names.last() == ws@[i as int]@);
        }
        apply_name(kind, roster, snap, to, &ws[i], &mut out);
        i = i + 1;
    }
    proof {
        assert(views(ws@).subrange(1, ws@.len() as int) =~= views(ws@).drop_first());
    }
    out
}

/// The aliases of the group members that the live roster lists.
fn group_aliases(snap: &Snapshot) -> (r: Vec<String>)
    ensures
        views(r@) == member_aliases(snap.players@, snap.group@),
{
    let mut out: Vec<String> = Vec::new();
    let mut i: usize = 0;
    while i < snap.group.len()
        invariant
            i <= snap.group@.len(),
            views(out@) == member_aliases(snap.players@, snap.group@.take(i as int)),
        decreases snap.group@.len() - i,
    {
        let ghost g = snap.group@.take(i + 1);
        proof {
            assert(g.drop_last() =~= snap.group@.take(i as int));
            lemma_handle_index_bounds(snap.players@, g.last());
        }
        match snap.find_by_handle(snap.group[i]) {
            Some(k) => {
                let ghost before = out@;
                out.push(snap.players[k].alias.clone());
                proof {
                    assert(views(out@) =~= views(before).push(snap.players@[k as int].alias@));
                }
            },
            None => {},
        }
        i = i + 1;
    }
    proof {
        assert(snap.group@.take(snap.group@.len() as int) =~= snap.group@);
    }
    out
}

/// The removal of every group member.
fn remove_all(snap: &Snapshot) -> (r: Vec<Action>)
    ensures
        action_views(r@) == removals(snap.group@),
{
    let mut out: Vec<Action> = Vec::new();
    let mut i: usize = 0;
    while i < snap.group.len()
        invariant
            i <= snap.group@.len(),
            action_views(out@) == removals(snap.group@.take(i as int)),
        decreases snap.group@.len() - i,
    {
        push_action(&mut out, Action::RemoveFromGroup(snap.group[i]));
        proof {
            assert(removals(snap.group@.take(i + 1)) =~= removals(snap.group@.take(i as int)).push(
                ActionView::Remove(snap.group@[i as int]),
            ));
        }
        i = i + 1;
    }
    proof {
        assert(snap.group@.take(snap.group@.len() as int) =~= snap.group@);
    }
    out
}

/// Reads the command in `text`, sent by `sender`, and carries it out against
/// `roster` and the live state `snap`; `draw` is a uniformly random number
/// that a roll uses. Returns the actions that answer it, in order. A roll
/// whose bound is missing, not a number or below two is an error, and then
/// nothing has changed.
pub fn interpret(
    roster: &mut Roster,
    snap: &Snapshot,
    sender: &Sender,
    text: &str,
    draw: u64,
) -> (r: Result<Vec<Action>, CommandError>)
    ensures
        match outcome(
            old(roster)@,
            snap.players@,
            snap.group@,
            sender.handle,
            sender.alias@,
            sender.stable_id@,
            sender.channel,
            words(text@),
            draw,
        ) {
            Ok(o) => r is Ok && final(roster)@ == o.0 && action_views(r->Ok_0@) == o.1,
            Err(e) => r == Err::<Vec<Action>, CommandError>(e) && final(roster)@ == old(roster)@,
        },
{
    let ws = split_words(text);
    let to = &sender.alias;
    let me = &sender.stable_id;
    let mut out: Vec<Action> = Vec::new();
    proof {
        assert(action_views(out@) =~= Seq::<ActionView>::empty());
    }
    if ws.len() == 0 {
        return Ok(out);
    }
    let kind = parse_kind(ws[0].as_str());
    match kind {
        None => Ok(out),
        Some(CommandKind::Invite) => {
            if roster.is_banned(me) {
                push_reply(&mut out, to, String::from_str("You are banned"));
                Ok(out)
            } else if ws.len() == 1 {
                push_action(&mut out, Action::SendGroupInvite(sender.handle));
                Ok(out)
            } else {
                Ok(apply_names(CommandKind::Invite, roster, snap, to, &ws))
            }
        },
        Some(CommandKind::KickAll) => {
            if !roster.is_admin(me) {
                push_reply(&mut out, to, String::from_str("You are not an admin"));
                Ok(out)
            } else {
                Ok(remove_all(snap))
            }
        },
        Some(CommandKind::Info) => {
            let members = group_aliases(snap);
            push_action(&mut out, reply_action(sender.channel, to, join_labelled("Members:", &members)));
            push_action(
                &mut out,
                reply_action(sender.channel, to, join_labelled("Administrators:", &snap.display_names(roster.administrators()))),
            );
            push_action(&mut out, reply_action(sender.channel, to, join_labelled("Banned:", &snap.display_names(roster.banned()))));
            proof {
                let o = outcome(
                    old(roster)@,
                    snap.players@,
                    snap.group@,
                    sender.handle,
                    sender.alias@,
                    sender.stable_id@,
                    sender.channel,
                    words(text@),
                    draw,
                );
                assert(action_views(out@) =~= o->Ok_0.1);
            }
            Ok(out)
        },
        Some(CommandKind::Roll) => {
            if ws.len() < 2 {
                return Err(CommandError::BadNumber);
            }
            match parse_number(ws[1].as_str()) {
                None => Err(CommandError::BadNumber),
                Some(n) => match roll(n, draw) {
                    Err(e) => Err(e),
                    Ok(v) => {
                        let mut t = to.clone();
                        t.append(" rolled ");
                        let d = decimal(v);
                        t.append(d.as_str());
                        push_action(&mut out, reply_action(sender.channel, to, t));
                        Ok(out)
                    },
                },
            }
        },
        Some(CommandKind::Cheese) => {
            if snap.in_group(sender.handle) {
                push_action(&mut out, reply_action(sender.channel, to, String::from_str("Cheese!")));
            }
            Ok(out)
        },
        Some(kind) => {
            let allowed = roster.is_admin(me) || (kind == CommandKind::Admin && roster.has_no_admins());
            if !allowed {
                push_reply(&mut out, to, String::from_str("You are not an admin"));
                Ok(out)
            } else if ws.len() == 1 {
                push_reply(&mut out, to, text_of("You must specify a player to ", verb(kind)));
                Ok(out)
            } else {
                Ok(apply_names(kind, roster, snap, to, &ws))
            }
        },
    }
}

} // verus!
