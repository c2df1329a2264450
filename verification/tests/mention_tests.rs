use reminder_commands::mention::{channel_mention, mention_list, scope_from_capture, scope_mention, ReminderScope};
use reminder_commands::phrase::phrase_split;

fn cs(s: &str) -> Vec<char> {
    s.chars().collect()
}

fn st(v: Vec<char>) -> String {
    v.into_iter().collect()
}

#[test]
fn channel_mention_reads_whole_text() {
    assert_eq!(channel_mention(&cs("<#123>")).map(st), Some("123".to_string()));
    assert_eq!(channel_mention(&cs(" \t<#42>\n ")).map(st), Some("42".to_string()));
    assert_eq!(channel_mention(&cs("<#>")), None);
    assert_eq!(channel_mention(&cs("<@123>")), None);
    assert_eq!(channel_mention(&cs("x <#123>")), None);
    assert_eq!(channel_mention(&cs("<#12a>")), None);
    assert_eq!(channel_mention(&cs("<#!12>")), None);
    // `\d` takes any decimal digit.
    assert_eq!(channel_mention(&cs("<#٣>")).map(st), Some("٣".to_string()));
}

#[test]
fn scope_mention_reads_users_and_channels() {
    assert_eq!(scope_mention(&cs("<@42>")).map(|(c, d)| (c, st(d))), Some(('@', "42".to_string())));
    assert_eq!(scope_mention(&cs("<@!42>")).map(|(c, d)| (c, st(d))), Some(('@', "42".to_string())));
    assert_eq!(scope_mention(&cs("<#!7>")).map(|(c, d)| (c, st(d))), Some(('#', "7".to_string())));
    assert_eq!(scope_mention(&cs("\u{3000}<#7>")).map(|(c, d)| (c, st(d))), Some(('#', "7".to_string())));
    assert_eq!(scope_mention(&cs("<&7>")), None);
    assert_eq!(scope_mention(&cs("<@!>")), None);
    assert_eq!(scope_mention(&cs("<@7> <@8>")), None);
}

#[test]
fn mention_round_trip() {
    for scope in [ReminderScope::User(0), ReminderScope::Channel(123456789012345678), ReminderScope::User(u64::MAX)] {
        let text = scope.mention();
        let (sigil, digits) = scope_mention(&cs(&text)).unwrap();
        assert_eq!(scope_from_capture(sigil, &digits), Some(scope));
    }
    assert_eq!(ReminderScope::User(5).mention(), "<@5>");
    assert_eq!(ReminderScope::Channel(9).mention(), "<#9>");
}

#[test]
fn scope_from_capture_needs_u64_digits() {
    assert_eq!(scope_from_capture('@', &cs("18446744073709551616")), None);
    assert_eq!(scope_from_capture('#', &cs("٣")), None);
    assert_eq!(scope_from_capture('#', &cs("12")), Some(ReminderScope::Channel(12)));
}

#[test]
fn mention_lists() {
    assert!(mention_list(&cs("<@1>")));
    assert!(mention_list(&cs("<@1> <@!2>  <#3>")));
    assert!(mention_list(&cs("   ")));
    assert!(!mention_list(&cs("")));
    assert!(!mention_list(&cs("<#!3>")));
    assert!(!mention_list(&cs("<@1> x")));
    assert!(!mention_list(&cs("<@1")));
}

#[test]
fn phrase_split_follows_leftmost_greedy_match() {
    let split = |s: &str, w: &str, m: bool| phrase_split(&cs(s), &cs(w), m).map(|(a, b)| (st(a), st(b)));
    assert_eq!(split("buy milk to <@1>", "to", true), Some(("buy milk".to_string(), "<@1>".to_string())));
    assert_eq!(split("go to town to <@1> <#2>", "to", true), Some(("go to town".to_string(), "<@1> <#2>".to_string())));
    assert_eq!(split("go to town", "to", true), None);
    assert_eq!(split("water every 2 days every week", "every", false),
        Some(("water every 2 days".to_string(), "week".to_string())));
    assert_eq!(split("a\nb every c", "every", false), Some(("b".to_string(), "c".to_string())));
    assert_eq!(split("a every b\nc", "every", false), None);
    assert_eq!(split("x every y\nz every w", "every", false), Some(("z".to_string(), "w".to_string())));
}
