use reminder_commands::flow::{
    outcome_reply_key, remind_advance, remind_start, reminder_direct, RemindEvent, RemindStep,
};
use reminder_commands::mention::ReminderScope;
use reminder_commands::remind::{RemindCommand, ReminderError};

const NOW: i64 = 1_000_000;

#[test]
fn remind_in_the_current_channel() {
    let f = remind_start("10m tea", 5, Some(9), RemindCommand::Remind);
    assert_eq!(f.step, RemindStep::CheckSubscription);
    let f = remind_advance(f, RemindEvent::Subscription(true), 600, 10_000);
    assert_eq!(f.step, RemindStep::ResolveScope);
    assert_eq!(f.content, "tea");
    let f = remind_advance(f, RemindEvent::Channel { guild: Some(9), is_guild_channel: true, has_token: true, has_id: true }, 600, 10_000);
    assert_eq!(f.step, RemindStep::ReadTime);
    let f = remind_advance(f, RemindEvent::Time { at: Some(NOW + 600), now: NOW }, 600, 10_000);
    assert_eq!(f.step, RemindStep::Store(NOW + 600));
    let f = remind_advance(f, RemindEvent::Stored, 600, 10_000);
    assert_eq!(f.step, RemindStep::Done(Ok(())));
    assert_eq!(outcome_reply_key(Ok(())), "remind/success");
}

#[test]
fn interval_for_a_subscriber() {
    let f = remind_start("<@3> 1h 1d stretch legs", 5, None, RemindCommand::Interval);
    assert_eq!(f.scope, ReminderScope::User(3));
    let f = remind_advance(f, RemindEvent::Subscription(true), 600, 100_000);
    assert_eq!(f.step, RemindStep::ReadInterval);
    assert_eq!(f.interval_arg.as_deref(), Some("1d"));
    assert_eq!(f.content, "stretch legs");
    let g = remind_advance(f, RemindEvent::Interval(Some(86_400)), 600, 100_000);
    assert_eq!(g.interval, Some(86_400));
    assert_eq!(g.step, RemindStep::ResolveScope);
    let g = remind_advance(g, RemindEvent::UserChannel, 600, 100_000);
    assert_eq!(g.step, RemindStep::ReadTime);
    let g = remind_advance(g, RemindEvent::Time { at: Some(NOW + 3600), now: NOW }, 600, 100_000);
    assert_eq!(g.step, RemindStep::Store(NOW + 3600));
}

#[test]
fn each_failure_ends_the_flow() {
    let f = remind_start("", 5, None, RemindCommand::Remind);
    assert_eq!(f.step, RemindStep::Done(Err(ReminderError::NotEnoughArgs)));

    let f = remind_start("1h", 5, None, RemindCommand::Interval);
    let f = remind_advance(f, RemindEvent::Subscription(true), 600, 100_000);
    assert_eq!(f.step, RemindStep::Done(Err(ReminderError::NotEnoughArgs)));

    let f = remind_start("1h soon x", 5, None, RemindCommand::Interval);
    let f = remind_advance(f, RemindEvent::Subscription(true), 600, 100_000);
    let f = remind_advance(f, RemindEvent::Interval(None), 600, 100_000);
    assert_eq!(f.step, RemindStep::Done(Err(ReminderError::InvalidTime)));

    let f = remind_start("<#8> 1h x", 5, Some(1), RemindCommand::Remind);
    let f = remind_advance(f, RemindEvent::Subscription(false), 600, 100_000);
    let f = remind_advance(f, RemindEvent::Channel { guild: Some(2), is_guild_channel: true, has_token: true, has_id: true }, 600, 100_000);
    assert_eq!(f.step, RemindStep::Done(Err(ReminderError::InvalidTag)));

    let f = remind_start("1h x", 5, Some(1), RemindCommand::Remind);
    let f = remind_advance(f, RemindEvent::Subscription(false), 600, 100_000);
    let f = remind_advance(f, RemindEvent::Channel { guild: Some(1), is_guild_channel: true, has_token: false, has_id: true }, 600, 100_000);
    assert_eq!(f.step, RemindStep::CreateWebhook);
    let f = remind_advance(f, RemindEvent::Webhook(false), 600, 100_000);
    assert_eq!(f.step, RemindStep::Done(Err(ReminderError::DiscordError)));

    let f = remind_start("1h", 5, None, RemindCommand::Remind);
    let f = remind_advance(f, RemindEvent::Subscription(false), 600, 100_000);
    let f = remind_advance(f, RemindEvent::Channel { guild: None, is_guild_channel: false, has_token: false, has_id: false }, 600, 100_000);
    let f = remind_advance(f, RemindEvent::Time { at: Some(NOW + 10), now: NOW }, 600, 100_000);
    assert_eq!(f.step, RemindStep::Done(Err(ReminderError::NotEnoughArgs)));
    assert_eq!(outcome_reply_key(Err(ReminderError::NotEnoughArgs)), "remind/no_argument");
}

#[test]
fn events_that_do_not_answer_leave_the_flow() {
    let f = remind_start("1h x", 5, None, RemindCommand::Remind);
    let f = remind_advance(f, RemindEvent::Stored, 600, 100_000);
    assert_eq!(f.step, RemindStep::CheckSubscription);
    let d = reminder_direct(ReminderScope::Channel(4), "hello".to_string(), None, None);
    assert_eq!(d.step, RemindStep::ResolveScope);
    let d = remind_advance(d, RemindEvent::UserChannel, 600, 100_000);
    assert_eq!(d.step, RemindStep::ResolveScope);
    let d = remind_advance(d, RemindEvent::Channel { guild: None, is_guild_channel: false, has_token: false, has_id: false }, 600, 100_000);
    let d = remind_advance(d, RemindEvent::Time { at: Some(NOW - 1), now: NOW }, 600, 100_000);
    assert_eq!(d.step, RemindStep::Done(Err(ReminderError::PastTime)));
}
