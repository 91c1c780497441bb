use group_bot::{decimal, join_labelled, parse_kind, parse_number, same_text, split_words, CommandKind};

#[test]
fn split_words_matches_std() {
    for s in ["", "   ", "a", " kick  alice\tbob\n", "x\u{3000}y\u{a0}z", "tail "] {
        let expected: Vec<String> = s.split_whitespace().map(|w| w.to_string()).collect();
        assert_eq!(split_words(s), expected);
    }
}

#[test]
fn parse_number_cases() {
    assert_eq!(parse_number("0"), Some(0));
    assert_eq!(parse_number("42"), Some(42));
    assert_eq!(parse_number("18446744073709551615"), Some(u64::MAX));
    assert_eq!(parse_number("18446744073709551616"), None);
    assert_eq!(parse_number(""), None);
    assert_eq!(parse_number("4x"), None);
    assert_eq!(parse_number("+4"), None);
}

#[test]
fn decimal_cases() {
    assert_eq!(decimal(0), "0");
    assert_eq!(decimal(7), "7");
    assert_eq!(decimal(1230), "1230");
    assert_eq!(decimal(u64::MAX), "18446744073709551615");
}

#[test]
fn join_labelled_cases() {
    assert_eq!(join_labelled("Banned:", &vec![]), "Banned:");
    assert_eq!(join_labelled("Members:", &vec!["a".to_string(), "b".to_string()]), "Members: a b");
}

#[test]
fn command_words() {
    assert_eq!(parse_kind("kick-all"), Some(CommandKind::KickAll));
    assert_eq!(parse_kind("unban"), Some(CommandKind::Unban));
    assert_eq!(parse_kind("KICK"), None);
    assert!(same_text("abc", "abc"));
    assert!(!same_text("abc", "abd"));
    assert!(!same_text("abc", "ab"));
}
