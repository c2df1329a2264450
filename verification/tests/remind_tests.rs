use reminder_commands::mention::ReminderScope;
use reminder_commands::remind::{
    check_channel_guild, check_reminder, generate_uid, limit_from, needs_webhook, parse_remind_args,
    plan_interval, remind_reply, uid_from_bytes, RemindCommand, ReminderError,
    DEFAULT_MAX_TIME, DEFAULT_MIN_INTERVAL,
};

const ALL: [ReminderError; 8] = [
    ReminderError::LongTime,
    ReminderError::LongInterval,
    ReminderError::PastTime,
    ReminderError::ShortInterval,
    ReminderError::InvalidTag,
    ReminderError::NotEnoughArgs,
    ReminderError::InvalidTime,
    ReminderError::DiscordError,
];

#[test]
fn every_error_has_its_reply() {
    let keys: Vec<String> = ALL.iter().map(|e| e.to_response()).collect();
    assert_eq!(keys, vec![
        "remind/long_time", "interval/long_interval", "remind/past_time", "interval/short_interval",
        "remind/invalid_tag", "remind/no_argument", "remind/invalid_time", "remind/no_webhook",
    ]);
    for i in 0..keys.len() {
        for j in 0..keys.len() {
            assert_eq!(i == j, keys[i] == keys[j]);
        }
    }
    assert_eq!(ReminderError::LongTime.message(), "Time too long");
    assert_eq!(ReminderError::DiscordError.message(), "Bad response received from Discord");
}

#[test]
fn target_in_current_channel() {
    let t = parse_remind_args("10m  take out the bins", 55);
    assert_eq!(t.scope, ReminderScope::Channel(55));
    assert_eq!(t.time_arg.as_deref(), Some("10m"));
    assert_eq!(t.rest, vec!["take", "out", "the", "bins"]);
}

#[test]
fn target_from_mention() {
    let t = parse_remind_args("<@!99> 1h stretch", 55);
    assert_eq!(t.scope, ReminderScope::User(99));
    assert_eq!(t.time_arg.as_deref(), Some("1h"));
    assert_eq!(t.rest, vec!["stretch"]);
    let u = parse_remind_args("<#12>", 55);
    assert_eq!(u.scope, ReminderScope::Channel(12));
    assert_eq!(u.time_arg, None);
    let e = parse_remind_args("   ", 55);
    assert_eq!(e.scope, ReminderScope::Channel(55));
    assert_eq!(e.time_arg, None);
    assert!(e.rest.is_empty());
}

#[test]
fn interval_plans() {
    let rest: Vec<String> = vec!["1d".into(), "water".into(), "plants".into()];
    let p = plan_interval(RemindCommand::Interval, true, &rest).unwrap();
    assert_eq!(p.interval_arg.as_deref(), Some("1d"));
    assert_eq!(p.content, "water plants");
    let q = plan_interval(RemindCommand::Interval, false, &rest).unwrap();
    assert_eq!(q.interval_arg, None);
    assert_eq!(q.content, "1d water plants");
    let r = plan_interval(RemindCommand::Remind, true, &rest).unwrap();
    assert_eq!(r.content, "1d water plants");
    assert_eq!(plan_interval(RemindCommand::Interval, true, &vec![]).err(), Some(ReminderError::NotEnoughArgs));
}

#[test]
fn reminder_checks() {
    let now = 1_000_000;
    let ok = |c: &str, i: Option<i64>, t: Option<i64>| check_reminder(c, i, t, now, 600, 1000);
    assert_eq!(ok("", None, Some(now + 5)), Err(ReminderError::NotEnoughArgs));
    assert_eq!(ok("x", Some(599), Some(now + 5)), Err(ReminderError::ShortInterval));
    assert_eq!(ok("x", Some(1001), Some(now + 5)), Err(ReminderError::LongInterval));
    assert_eq!(ok("x", None, None), Err(ReminderError::InvalidTime));
    assert_eq!(ok("x", None, Some(now)), Err(ReminderError::PastTime));
    assert_eq!(ok("x", None, Some(now + 1001)), Err(ReminderError::LongTime));
    assert_eq!(ok("x", Some(600), Some(now + 1000)), Ok(()));
    assert_eq!(check_channel_guild(Some(1), Some(2)), Err(ReminderError::InvalidTag));
    assert_eq!(check_channel_guild(None, None), Ok(()));
    assert!(needs_webhook(true, false, true));
    assert!(!needs_webhook(true, true, true));
    assert!(!needs_webhook(false, false, false));
}

#[test]
fn reply_fills_placeholders() {
    let r = remind_reply("set for {location} in {offset}s ({min_interval}..{max_time}) {offset}",
        &ReminderScope::User(3), None, 600, 7);
    assert_eq!(r, "set for <@3> in -1s (600..7) {offset}");
    let s = remind_reply("{location}{offset}", &ReminderScope::Channel(4), Some(90), 1, 2);
    assert_eq!(s, "<#4>90");
}

#[test]
fn uids() {
    assert_eq!(uid_from_bytes(&vec![0, 64, 62, 63, 255]), "ab_ad");
    assert_eq!(uid_from_bytes(&vec![]), "");
}

#[test]
fn generated_uids_are_random_pairs() {
    let alphabet = "abcdefghijklmnopqrstuvwxyzABCDEFGHIJKLMNOPQRSTUVWXYZ0123456789_";
    let uids: Vec<String> = (0..6).map(|_| generate_uid().unwrap()).collect();
    for u in &uids {
        assert_eq!(u.chars().count(), 2);
        assert!(u.chars().all(|c| alphabet.contains(c)));
    }
    // Left unfilled, the bytes [0, 64] would give "ab" every time.
    assert!(uids.iter().any(|u| u != "ab"));
}

#[test]
fn limits_from_settings() {
    assert_eq!(limit_from(None, DEFAULT_MIN_INTERVAL), 600);
    assert_eq!(limit_from(Some("30"), DEFAULT_MIN_INTERVAL), 30);
    assert_eq!(limit_from(Some("-30"), DEFAULT_MIN_INTERVAL), -30);
    assert_eq!(limit_from(Some("soon"), DEFAULT_MAX_TIME), 60 * 60 * 24 * 365 * 50);
}
