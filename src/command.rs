//! The command words that chat messages start with.

use vstd::prelude::*;

verus! {

/// The commands that the bot answers. Any other first word is no command.
#[derive(PartialEq, Eq, Structural, Clone, Copy, Debug)]
pub enum CommandKind {
    Invite,
    Kick,
    KickAll,
    Admin,
    Ban,
    Unban,
    Info,
    Roll,
    Cheese,
}

/// The command that a first word selects: an exact, case-sensitive match.
pub open spec fn kind_of(w: Seq<char>) -> Option<CommandKind> {
    if w == "invite"@ {
        Some(CommandKind::Invite)
    } else if w == "kick"@ {
        Some(CommandKind::Kick)
    } else if w == "kick-all"@ {
        Some(CommandKind::KickAll)
    } else if w == "admin"@ {
        Some(CommandKind::Admin)
    } else if w == "ban"@ {
        Some(CommandKind::Ban)
    } else if w == "unban"@ {
        Some(CommandKind::Unban)
    } else if w == "info"@ {
        Some(CommandKind::Info)
    } else if w == "roll"@ {
        Some(CommandKind::Roll)
    } else if w == "cheese"@ {
        Some(CommandKind::Cheese)
    } else {
        None
    }
}

/// Whether two texts hold the same characters.
pub fn same_text(a: &str, b: &str) -> (r: bool)
    ensures
        r == (a@ == b@),
{
    let n = a.unicode_len();
    if n != b.unicode_len() {
        return false;
    }
    let mut i: usize = 0;
    while i < n
        invariant
            n == a@.len() == b@.len(),
            i <= n,
            forall|k: int| 0 <= k < i ==> a@[k] == b@[k],
        decreases n - i,
    {
        if a.get_char(i) != b.get_char(i) {
            return false;
        }
        i = i + 1;
    }
    proof {
        assert(a@ =~= b@);
    }
    true
}

/// Reads the command that the word `w` names.
pub fn parse_kind(w: &str) -> (r: Option<CommandKind>)
    ensures
        r == kind_of(w@),
{
    if same_text(w, "invite") {
        Some(CommandKind::Invite)
    } else if same_text(w, "kick") {
        Some(CommandKind::Kick)
    } else if same_text(w, "kick-all") {
        Some(CommandKind::KickAll)
    } else if same_text(w, "admin") {
        Some(CommandKind::Admin)
    } else if same_text(w, "ban") {
        Some(CommandKind::Ban)
    } else if same_text(w, "unban") {
        Some(CommandKind::Unban)
    } else if same_text(w, "info") {
        Some(CommandKind::Info)
    } else if same_text(w, "roll") {
        Some(CommandKind::Roll)
    } else if same_text(w, "cheese") {
        Some(CommandKind::Cheese)
    } else {
        None
    }
}

} // verus!
