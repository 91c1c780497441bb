//! What the session gives the bot to work with (who is online, who is in the
//! group) and the actions the bot hands back to it.

use vstd::prelude::*;
use crate::text::views;

verus! {

/// The kind of channel a chat message came on, and so the kind a reply to it
/// goes back on.
#[derive(PartialEq, Eq, Structural, Clone, Copy, Debug)]
pub enum Channel {
    /// A private message to the bot.
    Direct,
    /// The bot's group.
    Group,
    /// Everybody in the session.
    Broadcast,
}

/// An outbound effect.
#[derive(Debug, PartialEq, Eq)]
pub enum Action {
    /// Invite the player with this session handle into the group.
    SendGroupInvite(u64),
    /// Remove the player with this session handle from the group.
    RemoveFromGroup(u64),
    /// A private message: the alias it is for, then the text.
    SendDirectReply(String, String),
    /// A message to the group.
    SendGroupMessage(String),
    /// A message to everybody.
    BroadcastMessage(String),
    /// Write the roster back to the store: read the stored record, replace its
    /// two lists, write it whole.
    SaveRoster,
}

/// An action with its texts as character sequences.
pub ghost enum ActionView {
    Invite(u64),
    Remove(u64),
    Reply(Seq<char>, Seq<char>),
    Group(Seq<char>),
    Broadcast(Seq<char>),
    Save,
}

impl View for Action {
    type V = ActionView;

    open spec fn view(&self) -> ActionView {
        match self {
            Action::SendGroupInvite(h) => ActionView::Invite(*h),
            Action::RemoveFromGroup(h) => ActionView::Remove(*h),
            Action::SendDirectReply(to, text) => ActionView::Reply(to@, text@),
            Action::SendGroupMessage(text) => ActionView::Group(text@),
            Action::BroadcastMessage(text) => ActionView::Broadcast(text@),
            Action::SaveRoster => ActionView::Save,
        }
    }
}

pub open spec fn action_views(v: Seq<Action>) -> Seq<ActionView> {
    v.map_values(|a: Action| a@)
}

/// A message for the sender on the kind of channel that `channel` names.
pub open spec fn reply_on(channel: Channel, alias: Seq<char>, text: Seq<char>) -> ActionView {
    match channel {
        Channel::Direct => ActionView::Reply(alias, text),
        Channel::Group => ActionView::Group(text),
        Channel::Broadcast => ActionView::Broadcast(text),
    }
}

/// Whether an action changes the group, the kind that is sent at a limited rate.
pub open spec fn affects_group(a: ActionView) -> bool {
    a is Invite || a is Remove
}

/// One player of the session as the live roster lists them: the handle that
/// addresses them in this session, their display alias and the identifier
/// that stays theirs across sessions.
#[derive(Debug)]
pub struct PlayerEntry {
    pub handle: u64,
    pub alias: String,
    pub stable_id: String,
}

/// The live state that commands are read against, taken fresh each tick:
/// everybody online, and the handles of the bot's group members.
pub struct Snapshot {
    pub players: Vec<PlayerEntry>,
    pub group: Vec<u64>,
}

/// The position of the first player with alias `name`.
pub open spec fn alias_index(p: Seq<PlayerEntry>, name: Seq<char>) -> Option<int>
    decreases p.len(),
{
    if p.len() == 0 {
        None
    } else if p[0].alias@ == name {
        Some(0)
    } else {
        match alias_index(p.drop_first(), name) {
            Some(k) => Some(k + 1),
            None => None,
        }
    }
}

/// The position of the first player with session handle `h`.
pub open spec fn handle_index(p: Seq<PlayerEntry>, h: u64) -> Option<int>
    decreases p.len(),
{
    if p.len() == 0 {
        None
    } else if p[0].handle == h {
        Some(0)
    } else {
        match handle_index(p.drop_first(), h) {
            Some(k) => Some(k + 1),
            None => None,
        }
    }
}

/// The position of the first player whose stable identifier is `id`.
pub open spec fn stable_index(p: Seq<PlayerEntry>, id: Seq<char>) -> Option<int>
    decreases p.len(),
{
    if p.len() == 0 {
        None
    } else if p[0].stable_id@ == id {
        Some(0)
    } else {
        match stable_index(p.drop_first(), id) {
            Some(k) => Some(k + 1),
            None => None,
        }
    }
}

/// How a stable identifier is shown to players: the alias of the online player
/// who has it, or, for somebody offline, the identifier itself.
pub open spec fn display_name(p: Seq<PlayerEntry>, id: Seq<char>) -> Seq<char> {
    match stable_index(p, id) {
        Some(k) => p[k].alias@,
        None => id,
    }
}

/// `display_name` of each of `ids`, in order.
pub open spec fn display_names(p: Seq<PlayerEntry>, ids: Seq<Seq<char>>) -> Seq<Seq<char>> {
    ids.map_values(|id: Seq<char>| display_name(p, id))
}

proof fn lemma_stable_index(p: Seq<PlayerEntry>, id: Seq<char>, i: int)
    requires
        0 <= i <= p.len(),
        forall|k: int| 0 <= k < i ==> (#[trigger] p[k]).stable_id@ != id,
    ensures
        i < p.len() && p[i].stable_id@ == id ==> stable_index(p, id) == Some(i),
        i == p.len() ==> stable_index(p, id) is None,
    decreases i,
{
    if i > 0 {
        let q = p.drop_first();
        assert forall|k: int| 0 <= k < i - 1 implies (#[trigger] q[k]).stable_id@ != id by {
            assert(q[k] == p[k + 1]);
        }
        lemma_stable_index(q, id, i - 1);
        assert(p[0].stable_id@ != id);
    }
}

proof fn lemma_alias_index(p: Seq<PlayerEntry>, name: Seq<char>, i: int)
    requires
        0 <= i <= p.len(),
        forall|k: int| 0 <= k < i ==> (#[trigger] p[k]).alias@ != name,
    ensures
        i < p.len() && p[i].alias@ == name ==> alias_index(p, name) == Some(i),
        i == p.len() ==> alias_index(p, name) is None,
    decreases i,
{
    if i > 0 {
        let q = p.drop_first();
        assert forall|k: int| 0 <= k < i - 1 implies (#[trigger] q[k]).alias@ != name by {
            assert(q[k] == p[k + 1]);
        }
        lemma_alias_index(q, name, i - 1);
        assert(p[0].alias@ != name);
    }
}

proof fn lemma_handle_index(p: Seq<PlayerEntry>, h: u64, i: int)
    requires
        0 <= i <= p.len(),
        forall|k: int| 0 <= k < i ==> (#[trigger] p[k]).handle != h,
    ensures
        i < p.len() && p[i].handle == h ==> handle_index(p, h) == Some(i),
        i == p.len() ==> handle_index(p, h) is None,
    decreases i,
{
    if i > 0 {
        let q = p.drop_first();
        assert forall|k: int| 0 <= k < i - 1 implies (#[trigger] q[k]).handle != h by {
            assert(q[k] == p[k + 1]);
        }
        lemma_handle_index(q, h, i - 1);
        assert(p[0].handle != h);
    }
}

/// The result of `alias_index` always names a player.
pub proof fn lemma_alias_index_bounds(p: Seq<PlayerEntry>, name: Seq<char>)
    ensures
        alias_index(p, name) matches Some(k) ==> 0 <= k < p.len() && p[k].alias@ == name,
    decreases p.len(),
{
    if p.len() > 0 {
        lemma_alias_index_bounds(p.drop_first(), name);
    }
}

/// The result of `handle_index` always names a player.
pub proof fn lemma_handle_index_bounds(p: Seq<PlayerEntry>, h: u64)
    ensures
        handle_index(p, h) matches Some(k) ==> 0 <= k < p.len() && p[k].handle == h,
    decreases p.len(),
{
    if p.len() > 0 {
        lemma_handle_index_bounds(p.drop_first(), h);
    }
}

impl Snapshot {
    /// The first player whose alias is `name`.
    pub fn find_by_alias(&self, name: &String) -> (r: Option<usize>)
        ensures
            r matches Some(k) ==> alias_index(self.players@, name@) == Some(k as int),
            r is None ==> alias_index(self.players@, name@) is None,
    {
        let mut i: usize = 0;
        while i < self.players.len()
            invariant
                i <= self.players@.len(),
                forall|k: int| 0 <= k < i ==> (#[trigger] self.players@[k]).alias@ != name@,
            decreases self.players@.len() - i,
        {
            if self.players[i].alias == *name {
                proof {
                    lemma_alias_index(self.players@, name@, i as int);
                }
                return Some(i);
            }
            i = i + 1;
        }
        proof {
            lemma_alias_index(self.players@, name@, i as int);
        }
        None
    }

    /// How `id` is shown: the alias of the first online player who has it, or
    /// the identifier itself.
    pub fn display_name(&self, id: &String) -> (r: String)
        ensures
            r@ == display_name(self.players@, id@),
    {
        let mut i: usize = 0;
        while i < self.players.len()
            invariant
                i <= self.players@.len(),
                forall|k: int| 0 <= k < i ==> (#[trigger] self.players@[k]).stable_id@ != id@,
            decreases self.players@.len() - i,
        {
            if self.players[i].stable_id == *id {
                proof {
                    lemma_stable_index(self.players@, id@, i as int);
                }
                return self.players[i].alias.clone();
            }
            i = i + 1;
        }
        proof {
            lemma_stable_index(self.players@, id@, i as int);
        }
        id.clone()
    }

    /// `display_name` of each of `ids`, in order.
    pub fn display_names(&self, ids: &Vec<String>) -> (r: Vec<String>)
        ensures
            views(r@) == display_names(self.players@, views(ids@)),
    {
        let mut out: Vec<String> = Vec::new();
        let mut i: usize = 0;
        while i < ids.len()
            invariant
                i <= ids@.len(),
                views(out@) == display_names(self.players@, views(ids@).take(i as int)),
            decreases ids@.len() - i,
        {
            let ghost before = out@;
            let name = self.display_name(&ids[i]);
            out.push(name);
            proof {
                assert(views(out@) =~= views(before).push(name@));
                assert(display_names(self.players@, views(ids@).take(i + 1)) =~= display_names(
                    self.players@,
                    views(ids@).take(i as int),
                ).push(display_name(self.players@, ids@[i as int]@)));
            }
            i = i + 1;
        }
        proof {
            assert(views(ids@).take(ids@.len() as int) =~= views(ids@));
        }
        out
    }

    /// The first player whose session handle is `h`.
    pub fn find_by_handle(&self, h: u64) -> (r: Option<usize>)
        ensures
            r matches Some(k) ==> handle_index(self.players@, h) == Some(k as int),
            r is None ==> handle_index(self.players@, h) is None,
    {
        let mut i: usize = 0;
        while i < self.players.len()
            invariant
                i <= self.players@.len(),
                forall|k: int| 0 <= k < i ==> (#[trigger] self.players@[k]).handle != h,
            decreases self.players@.len() - i,
        {
            if self.players[i].handle == h {
                proof {
                    lemma_handle_index(self.players@, h, i as int);
                }
                return Some(i);
            }
            i = i + 1;
        }
        proof {
            lemma_handle_index(self.players@, h, i as int);
        }
        None
    }

    /// Whether the player with session handle `h` is in the group.
    pub fn in_group(&self, h: u64) -> (r: bool)
        ensures
            r == self.group@.contains(h),
    {
        let mut i: usize = 0;
        while i < self.group.len()
            invariant
                i <= self.group@.len(),
                forall|k: int| 0 <= k < i ==> self.group@[k] != h,
            decreases self.group@.len() - i,
        {
            if self.group[i] == h {
                proof {
                    assert(self.group@[i as int] == h);
                }
                return true;
            }
            i = i + 1;
        }
        false
    }
}

} // verus!
