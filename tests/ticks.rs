use group_bot::{
    route, Action, Bot, ChatChannel, CommandError, Dispatcher, Event, PlayerEntry, Poll, Roster,
    RouteError, Secrets, Snapshot, TickError,
};

fn snapshot() -> Snapshot {
    let p = |handle: u64, alias: &str| PlayerEntry {
        handle,
        alias: alias.to_string(),
        stable_id: format!("id-{alias}"),
    };
    Snapshot { players: vec![p(1, "boss"), p(2, "alice"), p(3, "carol")], group: vec![] }
}

fn record() -> Secrets {
    Secrets {
        username: "bot".to_string(),
        password: "SECRET-REDACTED".to_string(),
        character: "Helper".to_string(),
        admin_list: vec!["id-boss".to_string()],
        ban_list: vec![],
    }
}

fn chat(channel: ChatChannel, sender: Option<u64>, text: &str) -> Event {
    Event::Chat { channel, sender, text: text.to_string(), draw: 0 }
}

#[test]
fn route_drops_other_channels() {
    let mut roster = Roster::load(&record());
    let r = route(&mut roster, &snapshot(), &chat(ChatChannel::Other, Some(2), "invite"));
    assert_eq!(r, Ok(vec![]));
}

#[test]
fn route_unknown_sender_is_error() {
    let mut roster = Roster::load(&record());
    let snap = snapshot();
    assert_eq!(
        route(&mut roster, &snap, &chat(ChatChannel::Direct, None, "invite")),
        Err(RouteError::UnknownSender)
    );
    assert_eq!(
        route(&mut roster, &snap, &chat(ChatChannel::Group, Some(77), "invite")),
        Err(RouteError::UnknownSender)
    );
}

#[test]
fn route_member_left_removes() {
    let mut roster = Roster::load(&record());
    let r = route(&mut roster, &snapshot(), &Event::MemberLeft(3));
    assert_eq!(r, Ok(vec![Action::RemoveFromGroup(3)]));
    assert_eq!(route(&mut roster, &snapshot(), &Event::Other), Ok(vec![]));
}

#[test]
fn route_command_error() {
    let mut roster = Roster::load(&record());
    let r = route(&mut roster, &snapshot(), &chat(ChatChannel::Direct, Some(2), "roll x"));
    assert_eq!(r, Err(RouteError::Command(CommandError::BadNumber)));
}

#[test]
fn dispatcher_holds_group_actions() {
    let mut d = Dispatcher::new(0, 1000);
    assert_eq!(d.submit(Action::SendGroupInvite(2)), None);
    assert_eq!(d.submit(Action::SaveRoster), Some(Action::SaveRoster));
    assert_eq!(d.submit(Action::RemoveFromGroup(3)), None);
    assert_eq!(d.pending_len(), 2);
    assert_eq!(d.drain(999), None);
    assert_eq!(d.drain(1000), Some(Action::SendGroupInvite(2)));
    assert_eq!(d.drain(1999), None);
    assert_eq!(d.drain(2000), Some(Action::RemoveFromGroup(3)));
    assert_eq!(d.drain(5000), None);
}

#[test]
fn throttled_invites_leave_one_per_window() {
    let mut bot = Bot::new(&record(), 400, 1000);
    let snap = snapshot();
    let first = bot.tick(
        Poll::Events(vec![
            chat(ChatChannel::Direct, Some(2), "invite"),
            chat(ChatChannel::Direct, Some(3), "invite"),
        ]),
        &snap,
    );
    assert!(first.running);
    assert!(first.sends.is_empty());
    assert!(first.errors.is_empty());
    assert_eq!(bot.pending_len(), 2);
    // clock 400, then 800: the first window has not opened yet
    assert!(bot.tick(Poll::Events(vec![]), &snap).sends.is_empty());
    assert!(bot.tick(Poll::Events(vec![]), &snap).sends.is_empty());
    // clock 1200: one leaves
    assert_eq!(bot.tick(Poll::Events(vec![]), &snap).sends, vec![Action::SendGroupInvite(2)]);
    // clock 1600, 2000: still the same window
    assert!(bot.tick(Poll::Events(vec![]), &snap).sends.is_empty());
    assert!(bot.tick(Poll::Events(vec![]), &snap).sends.is_empty());
    // clock 2400: the next one
    assert_eq!(bot.tick(Poll::Events(vec![]), &snap).sends, vec![Action::SendGroupInvite(3)]);
    assert_eq!(bot.pending_len(), 0);
}

#[test]
fn replies_are_not_held_back() {
    let mut bot = Bot::new(&record(), 33, 1000);
    let r = bot.tick(
        Poll::Events(vec![chat(ChatChannel::Direct, Some(1), "invite alice")]),
        &snapshot(),
    );
    assert_eq!(
        r.sends,
        vec![Action::SendDirectReply("boss".to_string(), "Invited alice".to_string())]
    );
    assert_eq!(bot.pending_len(), 1);
}

#[test]
fn tick_reports_errors_and_goes_on() {
    let mut bot = Bot::new(&record(), 33, 1000);
    let snap = snapshot();
    let r = bot.tick(
        Poll::Events(vec![
            chat(ChatChannel::Direct, Some(2), "roll 1"),
            chat(ChatChannel::Direct, Some(9), "invite"),
            chat(ChatChannel::Group, Some(2), "kick carol"),
        ]),
        &snap,
    );
    assert!(r.running);
    assert_eq!(
        r.errors,
        vec![
            TickError::Route(RouteError::Command(CommandError::BoundTooSmall)),
            TickError::Route(RouteError::UnknownSender),
        ]
    );
    assert_eq!(
        r.sends,
        vec![Action::SendDirectReply("alice".to_string(), "You are not an admin".to_string())]
    );
    let failed = bot.tick(Poll::Failed, &snap);
    assert!(failed.running);
    assert_eq!(failed.errors, vec![TickError::PollFailed]);
}

#[test]
fn ended_session_stops() {
    let mut bot = Bot::new(&record(), 33, 1000);
    let r = bot.tick(Poll::Ended, &snapshot());
    assert!(!r.running);
    assert!(r.sends.is_empty());
    assert!(r.errors.is_empty());
}

#[test]
fn save_merges_into_stored_record() {
    let mut bot = Bot::new(&record(), 33, 0);
    let r = bot.tick(
        Poll::Events(vec![chat(ChatChannel::Direct, Some(1), "admin alice")]),
        &snapshot(),
    );
    assert_eq!(
        r.sends,
        vec![
            Action::SaveRoster,
            Action::SendDirectReply("boss".to_string(), "Promoted alice".to_string()),
        ]
    );
    let mut stored = record();
    stored.password = "SECRET-REDACTED".to_string();
    stored.ban_list = vec!["id-old".to_string()];
    let merged = bot.merged_record(stored);
    assert_eq!(merged.password, "SECRET-REDACTED");
    assert_eq!(merged.admin_list, vec!["id-boss".to_string(), "id-alice".to_string()]);
    assert!(merged.ban_list.is_empty());
    assert!(bot.roster().is_admin(&"id-alice".to_string()));
}

#[test]
fn bootstrapped_admin_can_kick_next_tick() {
    let mut empty = record();
    empty.admin_list = vec![];
    let mut bot = Bot::new(&empty, 33, 0);
    let mut snap = snapshot();
    snap.group = vec![2];
    let first = bot.tick(
        Poll::Events(vec![chat(ChatChannel::Direct, Some(2), "admin carol")]),
        &snap,
    );
    assert_eq!(
        first.sends,
        vec![
            Action::SaveRoster,
            Action::SendDirectReply("alice".to_string(), "Promoted carol".to_string()),
        ]
    );
    assert!(bot.roster().is_admin(&"id-carol".to_string()));
    let second = bot.tick(
        Poll::Events(vec![chat(ChatChannel::Direct, Some(3), "kick alice")]),
        &snap,
    );
    assert_eq!(second.sends, vec![Action::RemoveFromGroup(2)]);
    assert!(second.errors.is_empty());
}

#[test]
fn failed_poll_sends_nothing_and_keeps_queue() {
    let mut bot = Bot::new(&record(), 500, 0);
    let snap = snapshot();
    let first = bot.tick(
        Poll::Events(vec![
            chat(ChatChannel::Direct, Some(2), "invite"),
            chat(ChatChannel::Direct, Some(3), "invite"),
        ]),
        &snap,
    );
    assert_eq!(first.sends, vec![Action::SendGroupInvite(2)]);
    assert_eq!(bot.pending_len(), 1);
    let failed = bot.tick(Poll::Failed, &snap);
    assert!(failed.running);
    assert!(failed.sends.is_empty());
    assert_eq!(failed.errors, vec![TickError::PollFailed]);
    assert_eq!(bot.pending_len(), 1);
    let next = bot.tick(Poll::Events(vec![]), &snap);
    assert_eq!(next.sends, vec![Action::SendGroupInvite(3)]);
}
