use reminder_commands::mention::ReminderScope;
use reminder_commands::natural::{
    interval_phrase, natural_help, natural_interval, natural_interval_split, natural_reply, natural_summary,
    natural_targets, split_once, targets_from_split, NaturalError,
};
use reminder_commands::remind::ReminderError;

fn ok(content: &str, scopes: Vec<ReminderScope>) -> Result<(String, Vec<ReminderScope>), NaturalError> {
    Ok((content.to_string(), scopes))
}

#[test]
fn split_at_send_word() {
    assert_eq!(split_once("tomorrow at 5 send hello send", " send "),
        Some(("tomorrow at 5".to_string(), "hello send".to_string())));
    assert_eq!(split_once("tomorrow", " send "), None);
    assert_eq!(split_once("abc", ""), Some((String::new(), "abc".to_string())));
}

#[test]
fn targets_outside_a_guild() {
    assert_eq!(natural_targets("hi to <@1>", "to", 77, false), ok("hi to <@1>", vec![ReminderScope::Channel(77)]));
    // Outside a guild the word is never written into a pattern.
    assert_eq!(natural_targets("hi", "(", 77, false), ok("hi", vec![ReminderScope::Channel(77)]));
}

#[test]
fn targets_in_a_guild() {
    assert_eq!(natural_targets("feed the cat to <@!5>", "to", 77, true), ok("feed the cat", vec![ReminderScope::User(5)]));
    assert_eq!(natural_targets("feed the cat to <@5> <#6>", "to", 77, true), ok("feed the cat", vec![]));
    assert_eq!(natural_targets("feed the cat", "to", 77, true), ok("feed the cat", vec![ReminderScope::Channel(77)]));
    assert_eq!(natural_targets("feed to <#99999999999999999999>", "to", 77, true), Err(NaturalError::BadId));
}

#[test]
fn targets_with_pattern_words() {
    // Words with regular-expression syntax are read with pattern meaning.
    assert_eq!(natural_targets("feed the cat tx <#6>", "t.", 77, true), ok("feed the cat", vec![ReminderScope::Channel(6)]));
    assert_eq!(natural_targets("feed the cat t <@8>", "to?", 77, true), ok("feed the cat", vec![ReminderScope::User(8)]));
    assert_eq!(natural_targets("feed the cat", "t.", 77, true), ok("feed the cat", vec![ReminderScope::Channel(77)]));
    assert_eq!(natural_targets("a tx <#1> <#2>", "t.", 77, true), ok("a", vec![]));
    assert_eq!(natural_targets("a tx <#99999999999999999999>", "t.", 77, true), Err(NaturalError::BadId));
    // A word whose pattern does not compile.
    assert_eq!(natural_targets("feed the cat ( <#6>", "(", 77, true), Err(NaturalError::BadPattern));
}

#[test]
fn targets_from_groups() {
    assert_eq!(targets_from_split("m", None, 3), ok("m", vec![ReminderScope::Channel(3)]));
    assert_eq!(targets_from_split("m", Some(("c".to_string(), " <#4> ".to_string())), 3), ok("c", vec![ReminderScope::Channel(4)]));
    assert_eq!(targets_from_split("m", Some(("c".to_string(), "<#4><#5>".to_string())), 3), ok("c", vec![]));
}

#[test]
fn interval_pieces() {
    assert_eq!(natural_interval_split("water plants every 2 days", "every"),
        Ok(Some(("water plants".to_string(), "2 days".to_string()))));
    assert_eq!(natural_interval_split("water plants", "every"), Ok(None));
    assert_eq!(natural_interval_split("water plants evry 2 days", "eve?ry"),
        Ok(Some(("water plants".to_string(), "2 days".to_string()))));
    assert_eq!(natural_interval_split("water plants", "eve?ry"), Ok(None));
    assert_eq!(natural_interval_split("water plants ) 2 days", ")"), Err(NaturalError::BadPattern));
    assert_eq!(interval_phrase("2 days"), "1 2 days");
    assert_eq!(natural_interval(1_000_500, 1_000_000), 500);
    assert_eq!(natural_summary(3), "successfully set 3 reminders");
    assert_eq!(natural_help("try {prefix}natural or {prefix}help", "!"), "try !natural or !help");
}

#[test]
fn closing_replies() {
    assert_eq!(natural_reply(false, &vec![]), "DEV ERROR: Failed to invoke Python");
    assert_eq!(natural_reply(true, &vec![]), "successfully set 0 reminders");
    assert_eq!(natural_reply(true, &vec![Ok(()), Err(ReminderError::PastTime), Ok(())]), "successfully set 2 reminders");
}
