use vstd::prelude::*;
use crate::mention::ReminderScope;
use crate::remind::{
    needs_webhook, opt_chars, parse_remind_args, plan_interval, reaches_deadline_check,
    remind_args_ok, remind_target_spec, reminder_check_spec, interval_plan_spec, response_key,
    check_channel_guild, check_reminder, RemindCommand, ReminderError,
};
use crate::text::{owned, string_seqs};

verus! {

/// What the bot must do next to set a reminder, or the outcome once it is
/// done.
#[derive(Debug, Clone, Copy, PartialEq, Eq)]
pub enum RemindStep {
    /// Find out whether the author, or the owner of the guild, is subscribed.
    CheckSubscription,
    /// Read a repeat interval, in seconds, from `interval_arg` (in UTC).
    ReadInterval,
    /// Look up where the reminder goes: the user's direct-message channel,
    /// or the facts of the channel.
    ResolveScope,
    /// Create a webhook for the channel.
    CreateWebhook,
    /// Read the reminder's time from `time_arg`, and the current time.
    ReadTime,
    /// Store the reminder, due at this time (seconds since the epoch).
    Store(i64),
    /// Finished, with this outcome.
    Done(Result<(), ReminderError>),
}

/// What the bot found out while doing a step.
#[derive(Debug, Clone, Copy, PartialEq, Eq)]
pub enum RemindEvent {
    /// Whether the author or the guild's owner is subscribed.
    Subscription(bool),
    /// The interval read from its word, if one could be read.
    Interval(Option<i64>),
    /// The user's direct-message channel was found.
    UserChannel,
    /// The channel was found: its guild, whether it is a guild channel, and
    /// whether its webhook token and id are stored.
    Channel { guild: Option<u64>, is_guild_channel: bool, has_token: bool, has_id: bool },
    /// Whether the webhook was created.
    Webhook(bool),
    /// The time read from the time word (if one could be read) and the
    /// current time, in seconds since the epoch.
    Time { at: Option<i64>, now: i64 },
    /// The reminder was stored.
    Stored,
}

/// A reminder being set: what has been decided, and the next step.
pub struct RemindFlow {
    pub command: RemindCommand,
    pub scope: ReminderScope,
    pub time_arg: Option<String>,
    pub rest: Vec<String>,
    pub interval_arg: Option<String>,
    pub content: String,
    pub interval: Option<i64>,
    pub message_guild: Option<u64>,
    pub step: RemindStep,
}

/// A `RemindFlow` with its strings seen as character sequences.
pub struct FlowView {
    pub command: RemindCommand,
    pub scope: ReminderScope,
    pub time_arg: Option<Seq<char>>,
    pub rest: Seq<Seq<char>>,
    pub interval_arg: Option<Seq<char>>,
    pub content: Seq<char>,
    pub interval: Option<i64>,
    pub message_guild: Option<u64>,
    pub step: RemindStep,
}

impl View for RemindFlow {
    type V = FlowView;

    open spec fn view(&self) -> FlowView {
        FlowView {
            command: self.command,
            scope: self.scope,
            time_arg: opt_chars(self.time_arg),
            rest: string_seqs(self.rest@),
            interval_arg: opt_chars(self.interval_arg),
            content: self.content@,
            interval: self.interval,
            message_guild: self.message_guild,
            step: self.step,
        }
    }
}

/// The flow of `remind` or `interval` right after its words are read: it ends
/// at once with `NotEnoughArgs` when there is no time word, and otherwise asks
/// about the subscription first.
pub open spec fn start_spec(args: Seq<char>, channel: u64, message_guild: Option<u64>, command: RemindCommand) -> FlowView {
    let (scope, time_arg, rest) = remind_target_spec(args, channel);
    FlowView {
        command,
        scope,
        time_arg,
        rest,
        interval_arg: None,
        content: Seq::empty(),
        interval: None,
        message_guild,
        step: if time_arg is None {
            RemindStep::Done(Err(ReminderError::NotEnoughArgs))
        } else {
            RemindStep::CheckSubscription
        },
    }
}

/// The flow of one reminder whose content, interval and time are already
/// known (as `natural` sets them): it starts by looking up the scope.
pub open spec fn direct_spec(scope: ReminderScope, content: Seq<char>, interval: Option<i64>, message_guild: Option<u64>) -> FlowView {
    FlowView {
        command: RemindCommand::Remind,
        scope,
        time_arg: None,
        rest: Seq::empty(),
        interval_arg: None,
        content,
        interval,
        message_guild,
        step: RemindStep::ResolveScope,
    }
}

/// The flow with another next step.
pub open spec fn with_step(f: FlowView, step: RemindStep) -> FlowView {
    FlowView { step, ..f }
}

/// How one event moves the flow on. The subscription decides how the words
/// after the time are used; an interval that cannot be read, a channel of
/// another guild, a webhook that cannot be created and the checks on the
/// reminder each end the flow with their error; an event that does not answer
/// the current step leaves the flow as it is.
pub open spec fn advance_spec(f: FlowView, e: RemindEvent, min_interval: i64, max_time: i64) -> FlowView {
    match (f.step, e) {
        (RemindStep::CheckSubscription, RemindEvent::Subscription(subscribed)) => match interval_plan_spec(
            f.command,
            subscribed,
            f.rest,
        ) {
            Err(err) => with_step(f, RemindStep::Done(Err(err))),
            Ok((arg, content)) => FlowView {
                interval_arg: arg,
                content,
                step: if arg is Some {
                    RemindStep::ReadInterval
                } else {
                    RemindStep::ResolveScope
                },
                ..f
            },
        },
        (RemindStep::ReadInterval, RemindEvent::Interval(v)) => match v {
            None => with_step(f, RemindStep::Done(Err(ReminderError::InvalidTime))),
            Some(x) => FlowView { interval: Some(x), step: RemindStep::ResolveScope, ..f },
        },
        (RemindStep::ResolveScope, RemindEvent::UserChannel) => if f.scope is User {
            with_step(f, RemindStep::ReadTime)
        } else {
            f
        },
        (
            RemindStep::ResolveScope,
            RemindEvent::Channel { guild, is_guild_channel, has_token, has_id },
        ) => if f.scope is Channel {
            if guild != f.message_guild {
                with_step(f, RemindStep::Done(Err(ReminderError::InvalidTag)))
            } else if is_guild_channel && (!has_token || !has_id) {
                with_step(f, RemindStep::CreateWebhook)
            } else {
                with_step(f, RemindStep::ReadTime)
            }
        } else {
            f
        },
        (RemindStep::CreateWebhook, RemindEvent::Webhook(created)) => if created {
            with_step(f, RemindStep::ReadTime)
        } else {
            with_step(f, RemindStep::Done(Err(ReminderError::DiscordError)))
        },
        (RemindStep::ReadTime, RemindEvent::Time { at, now }) => match reminder_check_spec(
            f.content,
            f.interval,
            at,
            now,
            min_interval,
            max_time,
        ) {
            Ok(()) => with_step(f, RemindStep::Store(at.unwrap())),
            Err(err) => with_step(f, RemindStep::Done(Err(err))),
        },
        (RemindStep::Store(_), RemindEvent::Stored) => with_step(f, RemindStep::Done(Ok(()))),
        _ => f,
    }
}

/// The events on which the flow can move on without an overflow: reading the
/// time, where the checks reach `now + max_time`, needs that sum to fit an
/// `i64` (the sum is taken without a check).
pub open spec fn advance_ok(f: FlowView, e: RemindEvent, min_interval: i64, max_time: i64) -> bool {
    match (f.step, e) {
        (RemindStep::ReadTime, RemindEvent::Time { at, now }) => reaches_deadline_check(
            f.content,
            f.interval,
            at,
            now,
            min_interval,
            max_time,
        ) ==> i64::MIN <= now + max_time <= i64::MAX,
        _ => true,
    }
}

/// Whether `remind_advance` accepts the event (see `advance_ok`).
pub fn advance_allowed(flow: &RemindFlow, event: RemindEvent, min_interval: i64, max_time: i64) -> (res: bool)
    ensures
        res == advance_ok(flow@, event, min_interval, max_time),
{
    match (flow.step, event) {
        (RemindStep::ReadTime, RemindEvent::Time { at, now }) => {
            let reaches = crate::text::chars_of(flow.content.as_str()).len() > 0
                && !(match flow.interval {
                Some(i) => i < min_interval,
                None => false,
            }) && !(match flow.interval {
                Some(i) => i > max_time,
                None => false,
            }) && (match at {
                Some(t) => t > now,
                None => false,
            });
            !reaches || now.checked_add(max_time).is_some()
        },
        _ => true,
    }
}

/// Starts setting a reminder with `remind` or `interval`, from the command's
/// argument text, in channel `channel` of guild `message_guild`.
pub fn remind_start(args: &str, channel: u64, message_guild: Option<u64>, command: RemindCommand) -> (res: RemindFlow)
    requires
        remind_args_ok(args@),
    ensures
        res@ == start_spec(args@, channel, message_guild, command),
{
    let target = parse_remind_args(args, channel);
    let step = if target.time_arg.is_none() {
        RemindStep::Done(Err(ReminderError::NotEnoughArgs))
    } else {
        RemindStep::CheckSubscription
    };
    let flow = RemindFlow {
        command,
        scope: target.scope,
        time_arg: target.time_arg,
        rest: target.rest,
        interval_arg: None,
        content: String::new(),
        interval: None,
        message_guild,
        step,
    };
    assert(flow@.content =~= Seq::<char>::empty());
    flow
}

/// Starts setting one reminder whose content, interval and time are known.
pub fn reminder_direct(scope: ReminderScope, content: String, interval: Option<i64>, message_guild: Option<u64>) -> (res: RemindFlow)
    ensures
        res@ == direct_spec(scope, content@, interval, message_guild),
{
    let rest: Vec<String> = Vec::new();
    let flow = RemindFlow {
        command: RemindCommand::Remind,
        scope,
        time_arg: None,
        rest,
        interval_arg: None,
        content,
        interval,
        message_guild,
        step: RemindStep::ResolveScope,
    };
    assert(flow@.rest =~= Seq::<Seq<char>>::empty());
    flow
}

/// Moves the flow on by one event.
pub fn remind_advance(flow: RemindFlow, event: RemindEvent, min_interval: i64, max_time: i64) -> (res: RemindFlow)
    requires
        advance_ok(flow@, event, min_interval, max_time),
    ensures
        res@ == advance_spec(flow@, event, min_interval, max_time),
{
    let mut f = flow;
    match (f.step, event) {
        (RemindStep::CheckSubscription, RemindEvent::Subscription(subscribed)) => {
            match plan_interval(f.command, subscribed, &f.rest) {
                Err(err) => {
                    f.step = RemindStep::Done(Err(err));
                },
                Ok(plan) => {
                    f.step = if plan.interval_arg.is_some() {
                        RemindStep::ReadInterval
                    } else {
                        RemindStep::ResolveScope
                    };
                    f.interval_arg = plan.interval_arg;
                    f.content = plan.content;
                },
            }
        },
        (RemindStep::ReadInterval, RemindEvent::Interval(v)) => {
            match v {
                None => {
                    f.step = RemindStep::Done(Err(ReminderError::InvalidTime));
                },
                Some(x) => {
                    f.interval = Some(x);
                    f.step = RemindStep::ResolveScope;
                },
            }
        },
        (RemindStep::ResolveScope, RemindEvent::UserChannel) => {
            if let ReminderScope::User(_) = f.scope {
                f.step = RemindStep::ReadTime;
            }
        },
        (RemindStep::ResolveScope, RemindEvent::Channel { guild, is_guild_channel, has_token, has_id }) => {
            if let ReminderScope::Channel(_) = f.scope {
                if check_channel_guild(guild, f.message_guild).is_err() {
                    f.step = RemindStep::Done(Err(ReminderError::InvalidTag));
                } else if needs_webhook(is_guild_channel, has_token, has_id) {
                    f.step = RemindStep::CreateWebhook;
                } else {
                    f.step = RemindStep::ReadTime;
                }
            }
        },
        (RemindStep::CreateWebhook, RemindEvent::Webhook(created)) => {
            f.step = if created {
                RemindStep::ReadTime
            } else {
                RemindStep::Done(Err(ReminderError::DiscordError))
            };
        },
        (RemindStep::ReadTime, RemindEvent::Time { at, now }) => {
            match check_reminder(f.content.as_str(), f.interval, at, now, min_interval, max_time) {
                Ok(()) => {
                    f.step = match at {
                        Some(t) => RemindStep::Store(t),
                        None => RemindStep::Done(Err(ReminderError::InvalidTime)),
                    };
                },
                Err(err) => {
                    f.step = RemindStep::Done(Err(err));
                },
            }
        },
        (RemindStep::Store(_), RemindEvent::Stored) => {
            f.step = RemindStep::Done(Ok(()));
        },
        _ => {},
    }
    f
}

/// The key of the reply once the flow is done: `remind/success`, or the key of
/// the error.
pub open spec fn outcome_key(outcome: Result<(), ReminderError>) -> Seq<char> {
    match outcome {
        Ok(()) => "remind/success"@,
        Err(e) => response_key(e),
    }
}

/// The key of the reply for an outcome.
pub fn outcome_reply_key(outcome: Result<(), ReminderError>) -> (res: String)
    ensures
        res@ == outcome_key(outcome),
{
    match outcome {
        Ok(()) => owned("remind/success"),
        Err(e) => e.to_response(),
    }
}

/// Once a flow is done, no event changes it.
pub proof fn lemma_done_is_final(f: FlowView, e: RemindEvent, min_interval: i64, max_time: i64)
    requires
        f.step is Done,
    ensures
        advance_spec(f, e, min_interval, max_time) == f,
{
}

/// A reminder is stored only after the checks pass on the time that was read:
/// it has content, it is due after the current time and at most `max_time`
/// seconds later, and its interval, if any, lies within the limits.
pub proof fn lemma_store_only_after_checks(f: FlowView, e: RemindEvent, min_interval: i64, max_time: i64)
    requires
        !(f.step is Store),
        advance_spec(f, e, min_interval, max_time).step matches RemindStep::Store(t),
    ensures
        ({
            let t = advance_spec(f, e, min_interval, max_time).step->Store_0;
            &&& e matches RemindEvent::Time { at, now } && at == Some(t) && now < t <= now + max_time
            &&& f.content.len() > 0
            &&& f.interval matches Some(i) ==> min_interval <= i <= max_time
        }),
{
}

/// At the webhook step, a created webhook lets the reminder go on to reading
/// its time with nothing else changed; only a failed creation ends the flow,
/// with `DiscordError`.
pub proof fn lemma_webhook_outcome(f: FlowView, min_interval: i64, max_time: i64)
    requires
        f.step == RemindStep::CreateWebhook,
    ensures
        advance_spec(f, RemindEvent::Webhook(true), min_interval, max_time) == (FlowView {
            step: RemindStep::ReadTime,
            ..f
        }),
        advance_spec(f, RemindEvent::Webhook(false), min_interval, max_time) == (FlowView {
            step: RemindStep::Done(Err(ReminderError::DiscordError)),
            ..f
        }),
{
}

/// A direct reminder starts at looking up its scope and keeps what it was
/// given: the scope, the content, the interval and the message's guild.
/// A channel of that same guild then passes the guild check, and a channel
/// of any other guild is refused with `InvalidTag`.
pub proof fn lemma_direct_keeps_inputs(
    scope: ReminderScope,
    content: Seq<char>,
    interval: Option<i64>,
    message_guild: Option<u64>,
    other_guild: Option<u64>,
    is_guild_channel: bool,
    min_interval: i64,
    max_time: i64,
)
    ensures
        direct_spec(scope, content, interval, message_guild).scope == scope,
        direct_spec(scope, content, interval, message_guild).content == content,
        direct_spec(scope, content, interval, message_guild).interval == interval,
        direct_spec(scope, content, interval, message_guild).message_guild == message_guild,
        direct_spec(scope, content, interval, message_guild).step == RemindStep::ResolveScope,
        scope is Channel ==> advance_spec(
            direct_spec(scope, content, interval, message_guild),
            RemindEvent::Channel { guild: message_guild, is_guild_channel, has_token: true, has_id: true },
            min_interval,
            max_time,
        ).step == RemindStep::ReadTime,
        scope is Channel && other_guild != message_guild ==> advance_spec(
            direct_spec(scope, content, interval, message_guild),
            RemindEvent::Channel { guild: other_guild, is_guild_channel, has_token: true, has_id: true },
            min_interval,
            max_time,
        ).step == RemindStep::Done(Err(ReminderError::InvalidTag)),
        scope is User ==> advance_spec(
            direct_spec(scope, content, interval, message_guild),
            RemindEvent::UserChannel,
            min_interval,
            max_time,
        ).step == RemindStep::ReadTime,
{
}

/// Resolving a channel: one of another guild is refused; in the same guild, a
/// guild channel without a stored webhook token or id needs a webhook first,
/// and any other channel goes on to reading the time. Nothing else changes.
pub proof fn lemma_channel_resolution(
    f: FlowView,
    guild: Option<u64>,
    is_guild_channel: bool,
    has_token: bool,
    has_id: bool,
    min_interval: i64,
    max_time: i64,
)
    requires
        f.step == RemindStep::ResolveScope,
        f.scope is Channel,
    ensures
        ({
            let g = advance_spec(
                f,
                RemindEvent::Channel { guild, is_guild_channel, has_token, has_id },
                min_interval,
                max_time,
            );
            &&& g == (FlowView { step: g.step, ..f })
            &&& guild != f.message_guild ==> g.step == RemindStep::Done(Err(ReminderError::InvalidTag))
            &&& guild == f.message_guild && is_guild_channel && !(has_token && has_id) ==> g.step
                == RemindStep::CreateWebhook
            &&& guild == f.message_guild && !(is_guild_channel && !(has_token && has_id)) ==> g.step
                == RemindStep::ReadTime
        }),
{
}

/// Reading the interval: an interval that could not be read ends the flow with
/// `InvalidTime`; one that was read is kept, and the scope is looked up next.
pub proof fn lemma_interval_read(f: FlowView, v: Option<i64>, min_interval: i64, max_time: i64)
    requires
        f.step == RemindStep::ReadInterval,
    ensures
        v is None ==> advance_spec(f, RemindEvent::Interval(v), min_interval, max_time) == (FlowView {
            step: RemindStep::Done(Err(ReminderError::InvalidTime)),
            ..f
        }),
        v matches Some(x) ==> advance_spec(f, RemindEvent::Interval(v), min_interval, max_time) == (FlowView {
            interval: Some(x),
            step: RemindStep::ResolveScope,
            ..f
        }),
{
}

/// Reading the time: a reminder with content, an interval within the limits
/// (or none) and a time after `now` and at most `max_time` later is stored at
/// that time; a time that could not be read, or that is not after `now`, ends
/// the flow with `InvalidTime` or `PastTime`, and one too far ahead with
/// `LongTime`.
pub proof fn lemma_time_read(f: FlowView, at: Option<i64>, now: i64, min_interval: i64, max_time: i64)
    requires
        f.step == RemindStep::ReadTime,
        f.content.len() > 0,
        f.interval matches Some(i) ==> min_interval <= i <= max_time,
    ensures
        ({
            let g = advance_spec(f, RemindEvent::Time { at, now }, min_interval, max_time);
            &&& g == (FlowView { step: g.step, ..f })
            &&& at is None ==> g.step == RemindStep::Done(Err(ReminderError::InvalidTime))
            &&& at is Some && at->0 <= now ==> g.step == RemindStep::Done(Err(ReminderError::PastTime))
            &&& at is Some && at->0 > now && at->0 > now + max_time ==> g.step == RemindStep::Done(
                Err(ReminderError::LongTime),
            )
            &&& at is Some && now < at->0 <= now + max_time ==> g.step == RemindStep::Store(at->0)
        }),
{
}

/// A stored reminder ends the flow with success.
pub proof fn lemma_stored_succeeds(f: FlowView, t: i64, min_interval: i64, max_time: i64)
    requires
        f.step == RemindStep::Store(t),
    ensures
        advance_spec(f, RemindEvent::Stored, min_interval, max_time) == (FlowView {
            step: RemindStep::Done(Ok(())),
            ..f
        }),
{
}

/// The order of the steps: each event either leaves the flow as it is or
/// moves it to a later step.
pub open spec fn step_rank(s: RemindStep) -> int {
    match s {
        RemindStep::CheckSubscription => 0,
        RemindStep::ReadInterval => 1,
        RemindStep::ResolveScope => 2,
        RemindStep::CreateWebhook => 3,
        RemindStep::ReadTime => 4,
        RemindStep::Store(_) => 5,
        RemindStep::Done(_) => 6,
    }
}

/// Every event leaves the flow as it is or moves it to a later step, so a
/// flow is done after at most six events that answer its steps.
pub proof fn lemma_flow_progresses(f: FlowView, e: RemindEvent, min_interval: i64, max_time: i64)
    ensures
        advance_spec(f, e, min_interval, max_time) == f || step_rank(advance_spec(f, e, min_interval, max_time).step)
            > step_rank(f.step),
{
}

} // verus!
