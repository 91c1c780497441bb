use group_bot::{
    interpret, roll, Action, Channel, CommandError, PlayerEntry, Roster, Secrets, Sender,
    Snapshot,
};

fn player(handle: u64, alias: &str) -> PlayerEntry {
    PlayerEntry { handle, alias: alias.to_string(), stable_id: format!("id-{alias}") }
}

fn snapshot(group: Vec<u64>) -> Snapshot {
    Snapshot {
        players: vec![player(1, "boss"), player(2, "alice"), player(3, "carol"), player(4, "dave")],
        group,
    }
}

fn sender(handle: u64, alias: &str, channel: Channel) -> Sender {
    Sender { handle, alias: alias.to_string(), stable_id: format!("id-{alias}"), channel }
}

fn record(admins: &[&str], banned: &[&str]) -> Secrets {
    Secrets {
        username: "bot".to_string(),
        password: "SECRET-REDACTED".to_string(),
        character: "Helper".to_string(),
        admin_list: admins.iter().map(|s| s.to_string()).collect(),
        ban_list: banned.iter().map(|s| s.to_string()).collect(),
    }
}

fn reply(to: &str, text: &str) -> Action {
    Action::SendDirectReply(to.to_string(), text.to_string())
}

#[test]
fn promote_then_reload_keeps_admin() {
    let mut roster = Roster::load(&record(&[], &[]));
    let id = "id-carol".to_string();
    assert_eq!(roster.promote(&id), group_bot::Promotion::Promoted);
    assert!(roster.is_admin(&id));
    assert!(!roster.is_banned(&id));
    let stored = roster.store_into(record(&["stale"], &["old"]));
    assert_eq!(stored.username, "bot");
    assert_eq!(stored.password, "SECRET-REDACTED");
    assert_eq!(stored.character, "Helper");
    assert_eq!(stored.admin_list, vec!["id-carol".to_string()]);
    assert!(stored.ban_list.is_empty());
    let reloaded = Roster::load(&stored);
    assert!(reloaded.is_admin(&id));
    assert!(!reloaded.is_banned(&id));
}

#[test]
fn promote_twice_adds_once() {
    let mut roster = Roster::new();
    let id = "id-dave".to_string();
    assert_eq!(roster.promote(&id), group_bot::Promotion::Promoted);
    assert_eq!(roster.promote(&id), group_bot::Promotion::AlreadyAdmin);
    assert_eq!(roster.administrators().len(), 1);
}

#[test]
fn promote_banned_is_no_op() {
    let mut roster = Roster::load(&record(&["id-boss"], &["id-carol"]));
    let id = "id-carol".to_string();
    assert_eq!(roster.promote(&id), group_bot::Promotion::RefusedBanned);
    assert_eq!(roster.administrators(), &vec!["id-boss".to_string()]);
    assert!(!roster.is_admin(&id));
    assert!(roster.is_banned(&id));
}

#[test]
fn ban_admin_is_refused_and_unban_removes_all_copies() {
    let mut roster = Roster::load(&record(&["id-boss"], &["id-x", "id-y", "id-x"]));
    assert_eq!(roster.ban(&"id-boss".to_string()), group_bot::Banning::RefusedAdmin);
    assert_eq!(roster.ban(&"id-y".to_string()), group_bot::Banning::AlreadyBanned);
    assert_eq!(roster.ban(&"id-z".to_string()), group_bot::Banning::Banned);
    assert!(roster.unban(&"id-x".to_string()));
    assert_eq!(roster.banned(), &vec!["id-y".to_string(), "id-z".to_string()]);
    assert!(!roster.unban(&"id-x".to_string()));
}

#[test]
fn roll_stays_in_range() {
    for n in 2..40u64 {
        for draw in [0u64, 1, 7, 1000, u64::MAX] {
            let v = roll(n, draw).unwrap();
            assert!(1 <= v && v < n);
        }
    }
    assert_eq!(roll(5, 7), Ok(4));
    assert_eq!(roll(2, 12345), Ok(1));
}

#[test]
fn roll_below_two_fails() {
    assert_eq!(roll(1, 3), Err(CommandError::BoundTooSmall));
    assert_eq!(roll(0, 3), Err(CommandError::BoundTooSmall));
}

#[test]
fn roll_command_replies_on_its_channel() {
    let mut roster = Roster::new();
    let snap = snapshot(vec![]);
    let r = interpret(&mut roster, &snap, &sender(2, "alice", Channel::Group), "roll 6", 9);
    assert_eq!(r, Ok(vec![Action::SendGroupMessage("alice rolled 5".to_string())]));
    let r = interpret(&mut roster, &snap, &sender(2, "alice", Channel::Direct), "roll 100", 0);
    assert_eq!(r, Ok(vec![reply("alice", "alice rolled 1")]));
    let r = interpret(&mut roster, &snap, &sender(2, "alice", Channel::Broadcast), "roll 3", 1);
    assert_eq!(r, Ok(vec![Action::BroadcastMessage("alice rolled 2".to_string())]));
}

#[test]
fn roll_command_errors() {
    let mut roster = Roster::new();
    let snap = snapshot(vec![]);
    let who = sender(2, "alice", Channel::Direct);
    assert_eq!(interpret(&mut roster, &snap, &who, "roll abc", 1), Err(CommandError::BadNumber));
    assert_eq!(interpret(&mut roster, &snap, &who, "roll", 1), Err(CommandError::BadNumber));
    assert_eq!(interpret(&mut roster, &snap, &who, "roll -3", 1), Err(CommandError::BadNumber));
    assert_eq!(interpret(&mut roster, &snap, &who, "roll 1", 1), Err(CommandError::BoundTooSmall));
    assert_eq!(interpret(&mut roster, &snap, &who, "roll 0", 1), Err(CommandError::BoundTooSmall));
    assert_eq!(
        interpret(&mut roster, &snap, &who, "roll 18446744073709551616", 1),
        Err(CommandError::BadNumber)
    );
}

#[test]
fn kick_found_then_missing() {
    let mut roster = Roster::load(&record(&["id-boss"], &[]));
    let snap = snapshot(vec![2]);
    let r = interpret(&mut roster, &snap, &sender(1, "boss", Channel::Direct), "kick alice bob", 0);
    assert_eq!(
        r,
        Ok(vec![Action::RemoveFromGroup(2), reply("boss", "Failed to find player bob")])
    );
}

#[test]
fn ban_from_non_admin_is_refused() {
    let mut roster = Roster::load(&record(&["id-boss"], &[]));
    let snap = snapshot(vec![2]);
    let r = interpret(&mut roster, &snap, &sender(2, "alice", Channel::Group), "ban carol", 0);
    assert_eq!(r, Ok(vec![reply("alice", "You are not an admin")]));
    assert!(roster.banned().is_empty());
    assert_eq!(roster.administrators(), &vec!["id-boss".to_string()]);
}

#[test]
fn admin_bootstrap_when_no_admins() {
    let mut roster = Roster::new();
    let snap = snapshot(vec![]);
    let r = interpret(&mut roster, &snap, &sender(4, "dave", Channel::Direct), "admin carol", 0);
    assert_eq!(r, Ok(vec![Action::SaveRoster, reply("dave", "Promoted carol")]));
    assert!(roster.is_admin(&"id-carol".to_string()));
    let stored = roster.store_into(record(&[], &[]));
    assert!(Roster::load(&stored).is_admin(&"id-carol".to_string()));
    let r = interpret(&mut roster, &snap, &sender(4, "dave", Channel::Direct), "admin dave", 0);
    assert_eq!(r, Ok(vec![reply("dave", "You are not an admin")]));
}

#[test]
fn cheese_needs_group_membership() {
    let mut roster = Roster::new();
    let snap = snapshot(vec![2]);
    let r = interpret(&mut roster, &snap, &sender(3, "carol", Channel::Direct), "cheese", 0);
    assert_eq!(r, Ok(vec![]));
    let r = interpret(&mut roster, &snap, &sender(2, "alice", Channel::Group), "cheese", 0);
    assert_eq!(r, Ok(vec![Action::SendGroupMessage("Cheese!".to_string())]));
}

#[test]
fn info_on_direct_channel() {
    let mut roster = Roster::load(&record(&["id-boss"], &["id-dave", "id-eve"]));
    let snap = snapshot(vec![2, 99, 3]);
    let r = interpret(&mut roster, &snap, &sender(2, "alice", Channel::Direct), "info", 0);
    assert_eq!(
        r,
        Ok(vec![
            reply("alice", "Members: alice carol"),
            reply("alice", "Administrators: boss"),
            reply("alice", "Banned: dave id-eve"),
        ])
    );
}

#[test]
fn info_shows_offline_entries_by_identifier() {
    let mut roster = Roster::load(&record(&["id-gone", "id-carol"], &[]));
    let snap = snapshot(vec![]);
    let r = interpret(&mut roster, &snap, &sender(2, "alice", Channel::Group), "info", 0);
    assert_eq!(
        r,
        Ok(vec![
            Action::SendGroupMessage("Members:".to_string()),
            Action::SendGroupMessage("Administrators: id-gone carol".to_string()),
            Action::SendGroupMessage("Banned:".to_string()),
        ])
    );
}

#[test]
fn info_with_empty_lists() {
    let mut roster = Roster::new();
    let snap = snapshot(vec![]);
    let r = interpret(&mut roster, &snap, &sender(2, "alice", Channel::Group), "info", 0);
    assert_eq!(
        r,
        Ok(vec![
            Action::SendGroupMessage("Members:".to_string()),
            Action::SendGroupMessage("Administrators:".to_string()),
            Action::SendGroupMessage("Banned:".to_string()),
        ])
    );
}

#[test]
fn invite_self_and_by_name() {
    let mut roster = Roster::new();
    let snap = snapshot(vec![]);
    let who = sender(2, "alice", Channel::Direct);
    assert_eq!(interpret(&mut roster, &snap, &who, "invite", 0), Ok(vec![Action::SendGroupInvite(2)]));
    assert_eq!(
        interpret(&mut roster, &snap, &who, "  invite carol\tnobody  ", 0),
        Ok(vec![
            Action::SendGroupInvite(3),
            reply("alice", "Invited carol"),
            reply("alice", "Failed to find player nobody"),
        ])
    );
}

#[test]
fn banned_sender_cannot_invite() {
    let mut roster = Roster::load(&record(&[], &["id-alice"]));
    let snap = snapshot(vec![]);
    let r = interpret(&mut roster, &snap, &sender(2, "alice", Channel::Direct), "invite", 0);
    assert_eq!(r, Ok(vec![reply("alice", "You are banned")]));
}

#[test]
fn privileged_commands_need_a_name() {
    let mut roster = Roster::load(&record(&["id-boss"], &[]));
    let snap = snapshot(vec![]);
    let who = sender(1, "boss", Channel::Direct);
    assert_eq!(
        interpret(&mut roster, &snap, &who, "kick", 0),
        Ok(vec![reply("boss", "You must specify a player to kick")])
    );
    assert_eq!(
        interpret(&mut roster, &snap, &who, "admin", 0),
        Ok(vec![reply("boss", "You must specify a player to promote")])
    );
    assert_eq!(
        interpret(&mut roster, &snap, &who, "ban", 0),
        Ok(vec![reply("boss", "You must specify a player to ban")])
    );
    assert_eq!(
        interpret(&mut roster, &snap, &who, "unban", 0),
        Ok(vec![reply("boss", "You must specify a player to unban")])
    );
}

#[test]
fn ban_and_unban_by_name() {
    let mut roster = Roster::load(&record(&["id-boss"], &[]));
    let snap = snapshot(vec![3]);
    let who = sender(1, "boss", Channel::Direct);
    assert_eq!(
        interpret(&mut roster, &snap, &who, "ban carol boss", 0),
        Ok(vec![
            Action::RemoveFromGroup(3),
            Action::SaveRoster,
            reply("boss", "Banned carol"),
            reply("boss", "boss is an admin and cannot be banned"),
        ])
    );
    assert!(roster.is_banned(&"id-carol".to_string()));
    assert_eq!(
        interpret(&mut roster, &snap, &who, "admin carol", 0),
        Ok(vec![reply("boss", "carol is banned and cannot be promoted")])
    );
    assert_eq!(
        interpret(&mut roster, &snap, &who, "unban carol carol", 0),
        Ok(vec![
            Action::SaveRoster,
            reply("boss", "Unbanned carol"),
            reply("boss", "carol is not banned"),
        ])
    );
    assert!(!roster.is_banned(&"id-carol".to_string()));
}

#[test]
fn kick_all_removes_every_member() {
    let mut roster = Roster::load(&record(&["id-boss"], &[]));
    let snap = snapshot(vec![2, 3]);
    let r = interpret(&mut roster, &snap, &sender(1, "boss", Channel::Group), "kick-all", 0);
    assert_eq!(r, Ok(vec![Action::RemoveFromGroup(2), Action::RemoveFromGroup(3)]));
    let r = interpret(&mut roster, &snap, &sender(2, "alice", Channel::Group), "kick-all", 0);
    assert_eq!(r, Ok(vec![reply("alice", "You are not an admin")]));
}

#[test]
fn unknown_or_empty_text_does_nothing() {
    let mut roster = Roster::new();
    let snap = snapshot(vec![2]);
    let who = sender(2, "alice", Channel::Direct);
    assert_eq!(interpret(&mut roster, &snap, &who, "hello there", 0), Ok(vec![]));
    assert_eq!(interpret(&mut roster, &snap, &who, "", 0), Ok(vec![]));
    assert_eq!(interpret(&mut roster, &snap, &who, "Invite", 0), Ok(vec![]));
}
