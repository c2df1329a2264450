use vstd::prelude::*;
use crate::mention::{
    mention_text, scope_from_capture, scope_mention, scope_mention_spec, scope_of, ReminderScope,
};
use crate::text::{
    chars_of, i64_text, join, join_text, owned, parse_i64, parse_i64_spec, parse_u64_spec,
    replace_first, replace_first_text, seqs, signed_text, string_of, string_seqs, strings_of,
    words, words_text,
};

verus! {

// ---------------------------------------------------------------------------
// Errors
// ---------------------------------------------------------------------------

/// Why a reminder was not set.
#[derive(Debug, Clone, Copy, PartialEq, Eq, Structural)]
pub enum ReminderError {
    LongTime,
    LongInterval,
    PastTime,
    ShortInterval,
    InvalidTag,
    NotEnoughArgs,
    InvalidTime,
    DiscordError,
}

/// The key of the localised reply that explains each error.
pub open spec fn response_key(e: ReminderError) -> Seq<char> {
    match e {
        ReminderError::LongTime => "remind/long_time"@,
        ReminderError::LongInterval => "interval/long_interval"@,
        ReminderError::PastTime => "remind/past_time"@,
        ReminderError::ShortInterval => "interval/short_interval"@,
        ReminderError::InvalidTag => "remind/invalid_tag"@,
        ReminderError::NotEnoughArgs => "remind/no_argument"@,
        ReminderError::InvalidTime => "remind/invalid_time"@,
        ReminderError::DiscordError => "remind/no_webhook"@,
    }
}

/// The English description of each error.
pub open spec fn error_message(e: ReminderError) -> Seq<char> {
    match e {
        ReminderError::LongTime => "Time too long"@,
        ReminderError::LongInterval => "Interval too long"@,
        ReminderError::PastTime => "Time has already passed"@,
        ReminderError::ShortInterval => "Interval too short"@,
        ReminderError::InvalidTag => "Invalid reminder scope"@,
        ReminderError::NotEnoughArgs => "Not enough args"@,
        ReminderError::InvalidTime => "Invalid time provided"@,
        ReminderError::DiscordError => "Bad response received from Discord"@,
    }
}

impl ReminderError {
    /// The key of the localised reply for this error.
    pub fn to_response(&self) -> (res: String)
        ensures
            res@ == response_key(*self),
    {
        let key = match self {
            Self::LongTime => "remind/long_time",
            Self::LongInterval => "interval/long_interval",
            Self::PastTime => "remind/past_time",
            Self::ShortInterval => "interval/short_interval",
            Self::InvalidTag => "remind/invalid_tag",
            Self::NotEnoughArgs => "remind/no_argument",
            Self::InvalidTime => "remind/invalid_time",
            Self::DiscordError => "remind/no_webhook",
        };
        owned(key)
    }

    /// The English description of this error.
    pub fn message(&self) -> (res: String)
        ensures
            res@ == error_message(*self),
    {
        let text = match self {
            Self::LongTime => "Time too long",
            Self::LongInterval => "Interval too long",
            Self::PastTime => "Time has already passed",
            Self::ShortInterval => "Interval too short",
            Self::InvalidTag => "Invalid reminder scope",
            Self::NotEnoughArgs => "Not enough args",
            Self::InvalidTime => "Invalid time provided",
            Self::DiscordError => "Bad response received from Discord",
        };
        owned(text)
    }
}

/// Distinct errors are answered with distinct replies.
pub proof fn lemma_response_keys_distinct(a: ReminderError, b: ReminderError)
    requires
        a != b,
    ensures
        response_key(a) != response_key(b),
{
    reveal_strlit("remind/long_time");
    reveal_strlit("interval/long_interval");
    reveal_strlit("remind/past_time");
    reveal_strlit("interval/short_interval");
    reveal_strlit("remind/invalid_tag");
    reveal_strlit("remind/no_argument");
    reveal_strlit("remind/invalid_time");
    reveal_strlit("remind/no_webhook");
    let ka = response_key(a);
    let kb = response_key(b);
    if ka.len() == kb.len() {
        assert(ka[7] != kb[7] || ka[8] != kb[8] || ka[0] != kb[0]);
    }
}

// ---------------------------------------------------------------------------
// Reading the arguments of `remind` and `interval`
// ---------------------------------------------------------------------------

/// Which command is setting the reminder.
#[derive(Debug, Clone, Copy, PartialEq, Eq, Structural)]
pub enum RemindCommand {
    Remind,
    Interval,
}

/// What the words of a `remind` or `interval` command name: where the
/// reminder goes, the word that gives its time (none when the words run out
/// before it), and the words after that one.
pub struct RemindTarget {
    pub scope: ReminderScope,
    pub time_arg: Option<String>,
    pub rest: Vec<String>,
}

/// The characters of an optional string.
pub open spec fn opt_chars(o: Option<String>) -> Option<Seq<char>> {
    match o {
        Some(s) => Some(s@),
        None => None,
    }
}

/// The words of `args`: split at each space, empty pieces dropped.
pub open spec fn arg_words(args: Seq<char>) -> Seq<Seq<char>> {
    words_text(args, ' ')
}

/// The inputs on which reading the target does not fail: when the first word
/// is a user or channel mention, its id fits a `u64` (the command panics on
/// such an id).
pub open spec fn remind_args_ok(args: Seq<char>) -> bool {
    let ws = arg_words(args);
    ws.len() > 0 ==> (scope_mention_spec(ws[0]) matches Some((_sigil, d)) ==> parse_u64_spec(d) is Some)
}

/// Whether `parse_remind_args` accepts `args` (see `remind_args_ok`).
pub fn remind_args_valid(args: &str) -> (res: bool)
    ensures
        res == remind_args_ok(args@),
{
    let ws = words(&chars_of(args), ' ');
    if ws.len() == 0 {
        return true;
    }
    assert(ws@[0]@ == arg_words(args@)[0]);
    match scope_mention(&ws[0]) {
        Some((_sigil, d)) => crate::text::parse_u64(&d).is_some(),
        None => true,
    }
}

/// What the words of `args` name, in a channel `channel`: a first word that is
/// a mention (`<@id>`, `<@!id>`, `<#id>`, `<#!id>`) sets the scope and the time
/// is the word after it; otherwise the scope is `channel` and the time is the
/// first word.
pub open spec fn remind_target_spec(args: Seq<char>, channel: u64) -> (ReminderScope, Option<Seq<char>>, Seq<Seq<char>>) {
    let ws = arg_words(args);
    if ws.len() == 0 {
        (ReminderScope::Channel(channel), None, Seq::empty())
    } else {
        match scope_mention_spec(ws[0]) {
            Some((sigil, d)) => {
                let scope = scope_of(sigil, parse_u64_spec(d).unwrap());
                if ws.len() >= 2 {
                    (scope, Some(ws[1]), ws.skip(2))
                } else {
                    (scope, None, Seq::empty())
                }
            },
            None => (ReminderScope::Channel(channel), Some(ws[0]), ws.skip(1)),
        }
    }
}

/// Where a reminder goes and which word gives its time: a first word that is
/// `<@id>` or `<@!id>` aims it at user `id`, `<#id>` or `<#!id>` at channel
/// `id`, and the time is the word after the mention; any other first word is
/// the time, for the channel the command was given in.
pub proof fn lemma_remind_target_words(args: Seq<char>, channel: u64)
    ensures
        ({
            let ws = arg_words(args);
            let r = remind_target_spec(args, channel);
            &&& ws.len() == 0 ==> r.0 == ReminderScope::Channel(channel) && r.1 is None
            &&& ws.len() > 0 && scope_mention_spec(ws[0]) is None ==> r.0 == ReminderScope::Channel(channel)
                && r.1 == Some(ws[0]) && r.2 == ws.skip(1)
            &&& ws.len() > 0 && scope_mention_spec(ws[0]) is Some && scope_mention_spec(ws[0]).unwrap().0 == '@'
                && parse_u64_spec(scope_mention_spec(ws[0]).unwrap().1) is Some ==> r.0 == ReminderScope::User(
                parse_u64_spec(scope_mention_spec(ws[0]).unwrap().1)->0,
            )
            &&& ws.len() > 0 && scope_mention_spec(ws[0]) is Some && scope_mention_spec(ws[0]).unwrap().0 == '#'
                && parse_u64_spec(scope_mention_spec(ws[0]).unwrap().1) is Some ==> r.0 == ReminderScope::Channel(
                parse_u64_spec(scope_mention_spec(ws[0]).unwrap().1)->0,
            )
            &&& ws.len() >= 2 && scope_mention_spec(ws[0]) is Some ==> r.1 == Some(ws[1]) && r.2 == ws.skip(2)
            &&& ws.len() == 1 && scope_mention_spec(ws[0]) is Some ==> r.1 is None
        }),
{
}

/// Reads where a reminder goes and which word gives its time from the
/// arguments of `remind` or `interval`, given in channel `channel`.
pub fn parse_remind_args(args: &str, channel: u64) -> (res: RemindTarget)
    requires
        remind_args_ok(args@),
    ensures
        (res.scope, opt_chars(res.time_arg), string_seqs(res.rest@)) == remind_target_spec(args@, channel),
{
    let ws = words(&chars_of(args), ' ');
    let ghost w = arg_words(args@);
    if ws.len() == 0 {
        let rest: Vec<String> = Vec::new();
        assert(string_seqs(rest@) =~= Seq::<Seq<char>>::empty());
        return RemindTarget { scope: ReminderScope::Channel(channel), time_arg: None, rest };
    }
    assert(ws@[0]@ == w[0]);
    match scope_mention(&ws[0]) {
        Some((sigil, d)) => {
            let scope = match scope_from_capture(sigil, &d) {
                Some(sc) => sc,
                None => ReminderScope::Channel(channel),
            };
            if ws.len() >= 2 {
                let rest = strings_of(&skip_words(&ws, 2));
                RemindTarget { scope, time_arg: Some(string_of(&ws[1])), rest }
            } else {
                let rest: Vec<String> = Vec::new();
                assert(string_seqs(rest@) =~= Seq::<Seq<char>>::empty());
                RemindTarget { scope, time_arg: None, rest }
            }
        },
        None => {
            let rest = strings_of(&skip_words(&ws, 1));
            RemindTarget { scope: ReminderScope::Channel(channel), time_arg: Some(string_of(&ws[0])), rest }
        },
    }
}

/// A copy of `v[n..]`.
fn skip_words(v: &Vec<Vec<char>>, n: usize) -> (res: Vec<Vec<char>>)
    requires
        n <= v.len(),
    ensures
        seqs(res@) == seqs(v@).skip(n as int),
{
    let mut out: Vec<Vec<char>> = Vec::new();
    let mut i = n;
    while i < v.len()
        invariant
            n <= i <= v.len(),
            out@.len() == i - n,
            forall|k: int| 0 <= k < i - n ==> #[trigger] out@[k]@ == v@[n + k]@,
        decreases v.len() - i,
    {
        out.push(v[i].clone());
        i = i + 1;
    }
    assert(seqs(out@) =~= seqs(v@).skip(n as int));
    out
}

/// How the words after the time are used: for `interval`, when the author is
/// subscribed, the first of them gives the repeat interval and the others are
/// the content; otherwise they are all the content. Words are joined with
/// single spaces.
pub struct IntervalPlan {
    pub interval_arg: Option<String>,
    pub content: String,
}

/// How the words after the time are used, or the error when `interval` has no
/// interval word.
pub open spec fn interval_plan_spec(command: RemindCommand, subscribed: bool, rest: Seq<Seq<char>>) -> Result<
    (Option<Seq<char>>, Seq<char>),
    ReminderError,
> {
    if command == RemindCommand::Interval && subscribed {
        if rest.len() == 0 {
            Err(ReminderError::NotEnoughArgs)
        } else {
            Ok((Some(rest[0]), join_text(rest.skip(1), seq![' '])))
        }
    } else {
        Ok((None, join_text(rest, seq![' '])))
    }
}

/// The words after the time: `remind`, and `interval` from an author who is
/// not subscribed, take them all as content and read no interval; `interval`
/// from a subscriber reads the first of them as the interval and fails with
/// `NotEnoughArgs` only when there is none. A single word of content is the
/// content as it is.
pub proof fn lemma_interval_plan_words(command: RemindCommand, subscribed: bool, rest: Seq<Seq<char>>)
    ensures
        !(command == RemindCommand::Interval && subscribed) ==> interval_plan_spec(command, subscribed, rest) is Ok
            && interval_plan_spec(command, subscribed, rest)->Ok_0.0 is None,
        command == RemindCommand::Interval && subscribed && rest.len() == 0 ==> interval_plan_spec(
            command,
            subscribed,
            rest,
        ) == Err::<(Option<Seq<char>>, Seq<char>), ReminderError>(ReminderError::NotEnoughArgs),
        command == RemindCommand::Interval && subscribed && rest.len() > 0 ==> interval_plan_spec(
            command,
            subscribed,
            rest,
        ) is Ok && interval_plan_spec(command, subscribed, rest)->Ok_0.0 == Some(rest[0]),
        command == RemindCommand::Remind && rest.len() == 1 ==> interval_plan_spec(command, subscribed, rest)->Ok_0.1
            == rest[0],
        command == RemindCommand::Interval && subscribed && rest.len() == 2 ==> interval_plan_spec(
            command,
            subscribed,
            rest,
        )->Ok_0.1 == rest[1],
{
    if rest.len() == 2 {
        assert(rest.skip(1).len() == 1);
        assert(rest.skip(1)[0] == rest[1]);
    }
}

/// Splits the words after the time into the interval word and the content.
pub fn plan_interval(command: RemindCommand, subscribed: bool, rest: &Vec<String>) -> (res: Result<IntervalPlan, ReminderError>)
    ensures
        match res {
            Ok(p) => interval_plan_spec(command, subscribed, string_seqs(rest@)) == Ok::<(Option<Seq<char>>, Seq<char>), ReminderError>((opt_chars(p.interval_arg), p.content@)),
            Err(e) => interval_plan_spec(command, subscribed, string_seqs(rest@)) == Err::<(Option<Seq<char>>, Seq<char>), ReminderError>(e),
        },
{
    let ws = crate::text::char_vecs_of(rest);
    let space = chars_of(" ");
    proof {
        reveal_strlit(" ");
    }
    assert(space@ =~= seq![' ']);
    if command == RemindCommand::Interval && subscribed {
        if ws.len() == 0 {
            Err(ReminderError::NotEnoughArgs)
        } else {
            let content = join(&skip_words(&ws, 1), &space);
            Ok(IntervalPlan { interval_arg: Some(string_of(&ws[0])), content: string_of(&content) })
        }
    } else {
        let content = join(&ws, &space);
        Ok(IntervalPlan { interval_arg: None, content: string_of(&content) })
    }
}

// ---------------------------------------------------------------------------
// Checking a reminder before it is stored
// ---------------------------------------------------------------------------

/// A channel scope is refused when the channel is not in the guild (or not
/// outside any guild, like the message) where the command was given.
pub fn check_channel_guild(channel_guild: Option<u64>, message_guild: Option<u64>) -> (res: Result<(), ReminderError>)
    ensures
        res == (if channel_guild == message_guild { Ok(()) } else { Err::<(), ReminderError>(ReminderError::InvalidTag) }),
{
    let same = match (channel_guild, message_guild) {
        (Some(a), Some(b)) => a == b,
        (None, None) => true,
        _ => false,
    };
    if same {
        Ok(())
    } else {
        Err(ReminderError::InvalidTag)
    }
}

/// Whether a webhook must be created for a channel before a reminder is set
/// there: for a guild channel that lacks its webhook token or id. When the
/// creation fails, the reminder is refused with `DiscordError`.
pub fn needs_webhook(is_guild_channel: bool, has_token: bool, has_id: bool) -> (res: bool)
    ensures
        res == (is_guild_channel && (!has_token || !has_id)),
{
    is_guild_channel && (!has_token || !has_id)
}

/// The checks on a reminder reach the comparison with `now + max_time`.
pub open spec fn reaches_deadline_check(
    content: Seq<char>,
    interval: Option<i64>,
    time: Option<i64>,
    now: i64,
    min_interval: i64,
    max_time: i64,
) -> bool {
    &&& content.len() > 0
    &&& !(interval matches Some(i) && i < min_interval)
    &&& !(interval matches Some(i) && i > max_time)
    &&& time matches Some(t) && t > now
}

/// What the checks on a reminder decide: its content, interval and time
/// (`None` where the time could not be read), against the current time `now`
/// and the limits.
pub open spec fn reminder_check_spec(
    content: Seq<char>,
    interval: Option<i64>,
    time: Option<i64>,
    now: i64,
    min_interval: i64,
    max_time: i64,
) -> Result<(), ReminderError> {
    if content.len() == 0 {
        Err(ReminderError::NotEnoughArgs)
    } else if interval matches Some(i) && i < min_interval {
        Err(ReminderError::ShortInterval)
    } else if interval matches Some(i) && i > max_time {
        Err(ReminderError::LongInterval)
    } else {
        match time {
            None => Err(ReminderError::InvalidTime),
            Some(t) => if t > now {
                if t > now + max_time {
                    Err(ReminderError::LongTime)
                } else {
                    Ok(())
                }
            } else {
                Err(ReminderError::PastTime)
            },
        }
    }
}

/// Checks a reminder before it is stored: content is needed, an interval must
/// lie within the limits, and the time must be read, lie after `now` and no
/// more than `max_time` seconds after it.
pub fn check_reminder(
    content: &str,
    interval: Option<i64>,
    time: Option<i64>,
    now: i64,
    min_interval: i64,
    max_time: i64,
) -> (res: Result<(), ReminderError>)
    requires
        reaches_deadline_check(content@, interval, time, now, min_interval, max_time) ==> i64::MIN <= now
            + max_time <= i64::MAX,
    ensures
        res == reminder_check_spec(content@, interval, time, now, min_interval, max_time),
{
    let chars = chars_of(content);
    if chars.len() == 0 {
        return Err(ReminderError::NotEnoughArgs);
    }
    if let Some(i) = interval {
        if i < min_interval {
            return Err(ReminderError::ShortInterval);
        }
        if i > max_time {
            return Err(ReminderError::LongInterval);
        }
    }
    match time {
        None => Err(ReminderError::InvalidTime),
        Some(t) => {
            if t > now {
                if t > now + max_time {
                    Err(ReminderError::LongTime)
                } else {
                    Ok(())
                }
            } else {
                Err(ReminderError::PastTime)
            }
        },
    }
}

/// A reminder that passes the checks is due after `now`, at most `max_time`
/// seconds later, has content, and an interval within the limits if any.
pub proof fn lemma_checked_reminder_in_bounds(
    content: Seq<char>,
    interval: Option<i64>,
    time: Option<i64>,
    now: i64,
    min_interval: i64,
    max_time: i64,
)
    requires
        reminder_check_spec(content, interval, time, now, min_interval, max_time) is Ok,
    ensures
        content.len() > 0,
        time matches Some(t) && now < t <= now + max_time,
        interval matches Some(i) ==> min_interval <= i <= max_time,
{
}

/// What the checks on a reminder answer: no content is `NotEnoughArgs`; with
/// content, an interval below the minimum is `ShortInterval` and one above the
/// maximum `LongInterval`; with those passed, a time that could not be read is
/// `InvalidTime`, one not after `now` is `PastTime`, one more than `max_time`
/// after it is `LongTime`, and any other time is accepted.
pub proof fn lemma_reminder_check_answers(
    content: Seq<char>,
    interval: Option<i64>,
    time: Option<i64>,
    now: i64,
    min_interval: i64,
    max_time: i64,
)
    ensures
        content.len() == 0 ==> reminder_check_spec(content, interval, time, now, min_interval, max_time)
            == Err::<(), ReminderError>(ReminderError::NotEnoughArgs),
        content.len() > 0 && interval is Some && interval->0 < min_interval ==> reminder_check_spec(
            content,
            interval,
            time,
            now,
            min_interval,
            max_time,
        ) == Err::<(), ReminderError>(ReminderError::ShortInterval),
        content.len() > 0 && interval is Some && min_interval <= interval->0 && interval->0 > max_time
            ==> reminder_check_spec(content, interval, time, now, min_interval, max_time) == Err::<
            (),
            ReminderError,
        >(ReminderError::LongInterval),
        content.len() > 0 && (interval is Some ==> min_interval <= interval->0 <= max_time) ==> {
            &&& time is None ==> reminder_check_spec(content, interval, time, now, min_interval, max_time)
                == Err::<(), ReminderError>(ReminderError::InvalidTime)
            &&& time is Some && time->0 <= now ==> reminder_check_spec(
                content,
                interval,
                time,
                now,
                min_interval,
                max_time,
            ) == Err::<(), ReminderError>(ReminderError::PastTime)
            &&& time is Some && time->0 > now && time->0 > now + max_time ==> reminder_check_spec(
                content,
                interval,
                time,
                now,
                min_interval,
                max_time,
            ) == Err::<(), ReminderError>(ReminderError::LongTime)
            &&& time is Some && now < time->0 <= now + max_time ==> reminder_check_spec(
                content,
                interval,
                time,
                now,
                min_interval,
                max_time,
            ) == Ok::<(), ReminderError>(())
        },
{
}

// ---------------------------------------------------------------------------
// The reply
// ---------------------------------------------------------------------------

/// The reply to `remind` or `interval`: the template with its first
/// `{location}` replaced by the scope's mention, then its first `{offset}` by
/// the time's offset (`-1` when there is none), then `{min_interval}` and
/// `{max_time}` by the limits.
pub open spec fn remind_reply_text(
    template: Seq<char>,
    scope: ReminderScope,
    offset: Option<i64>,
    min_interval: i64,
    max_time: i64,
) -> Seq<char> {
    let off: int = match offset {
        Some(o) => o as int,
        None => -1,
    };
    let a = replace_first_text(template, "{location}"@, mention_text(scope));
    let b = replace_first_text(a, "{offset}"@, signed_text(off));
    let c = replace_first_text(b, "{min_interval}"@, signed_text(min_interval as int));
    replace_first_text(c, "{max_time}"@, signed_text(max_time as int))
}

/// Fills the reply template of `remind` and `interval`.
pub fn remind_reply(template: &str, scope: &ReminderScope, offset: Option<i64>, min_interval: i64, max_time: i64) -> (res: String)
    ensures
        res@ == remind_reply_text(template@, *scope, offset, min_interval, max_time),
{
    let off: i64 = match offset {
        Some(o) => o,
        None => -1,
    };
    let a = replace_first(&chars_of(template), &chars_of("{location}"), &chars_of(scope.mention().as_str()));
    let b = replace_first(&a, &chars_of("{offset}"), &i64_text(off));
    let c = replace_first(&b, &chars_of("{min_interval}"), &i64_text(min_interval));
    let d = replace_first(&c, &chars_of("{max_time}"), &i64_text(max_time));
    string_of(&d)
}

// ---------------------------------------------------------------------------
// Limits
// ---------------------------------------------------------------------------

/// The shortest interval allowed, in seconds, when none is configured.
pub const DEFAULT_MIN_INTERVAL: i64 = 600;

/// The furthest a reminder may lie in the future, and the longest interval, in
/// seconds, when none is configured: fifty years of 365 days.
pub const DEFAULT_MAX_TIME: i64 = 1576800000;

/// A configured limit: the setting read as an `i64`, or `default` where it is
/// missing or does not read as one.
pub open spec fn limit_spec(setting: Option<Seq<char>>, default: i64) -> i64 {
    match setting {
        Some(s) => match parse_i64_spec(s) {
            Some(v) => v,
            None => default,
        },
        None => default,
    }
}

/// A configured limit from an optional setting, with a default.
pub fn limit_from(setting: Option<&str>, default: i64) -> (res: i64)
    ensures
        res == limit_spec(
            match setting {
                Some(s) => Some(s@),
                None => None,
            },
            default,
        ),
{
    match setting {
        Some(s) => match parse_i64(&chars_of(s)) {
            Some(v) => v,
            None => default,
        },
        None => default,
    }
}

// ---------------------------------------------------------------------------
// Reminder uids
// ---------------------------------------------------------------------------

/// The characters of a reminder's uid.
pub open spec fn uid_alphabet() -> Seq<char> {
    "abcdefghijklmnopqrstuvwxyzABCDEFGHIJKLMNOPQRSTUVWXYZ0123456789_"@
}

/// The uid drawn from `bytes`: each byte picks the character at its value
/// modulo the size of the alphabet.
pub open spec fn uid_text(bytes: Seq<u8>) -> Seq<char> {
    bytes.map_values(|b: u8| uid_alphabet()[(b % 63) as int])
}

/// The uid drawn from the given bytes.
pub fn uid_from_bytes(bytes: &Vec<u8>) -> (res: String)
    ensures
        res@ == uid_text(bytes@),
{
    let alphabet = chars_of("abcdefghijklmnopqrstuvwxyzABCDEFGHIJKLMNOPQRSTUVWXYZ0123456789_");
    proof {
        reveal_strlit("abcdefghijklmnopqrstuvwxyzABCDEFGHIJKLMNOPQRSTUVWXYZ0123456789_");
    }
    assert(alphabet@.len() == 63);
    let mut out: Vec<char> = Vec::new();
    let mut i: usize = 0;
    while i < bytes.len()
        invariant
            i <= bytes.len(),
            alphabet@ == uid_alphabet(),
            alphabet@.len() == 63,
            out@ == uid_text(bytes@.take(i as int)),
        decreases bytes.len() - i,
    {
        let b = bytes[i];
        out.push(alphabet[(b % 63) as usize]);
        i = i + 1;
        assert(out@ =~= uid_text(bytes@.take(i as int)));
    }
    assert(bytes@.take(bytes.len() as int) == bytes@);
    string_of(&out)
}

/// Fills `bytes` from the operating system's random source: rand's `OsRng`
/// through `RngCore::try_fill_bytes`. The result says whether the source gave
/// the bytes; the contract says only that the length stays, as the bytes are
/// whatever the source gave.
#[verifier::external_body]
fn fill_from_os(bytes: &mut Vec<u8>) -> (res: bool)
    ensures
        final(bytes)@.len() == old(bytes)@.len(),
{
    rand::RngCore::try_fill_bytes(&mut rand::rngs::OsRng, bytes.as_mut_slice()).is_ok()
}

/// A fresh uid for a reminder, from the two bytes `[0, 64]` overwritten with
/// random ones: two characters of the uid alphabet, drawn from random bytes.
/// `None` where the operating system gives no random bytes.
pub fn generate_uid() -> (res: Option<String>)
    ensures
        res matches Some(u) ==> {
            &&& u@.len() == 2
            &&& exists|bytes: Seq<u8>| bytes.len() == 2 && u@ == uid_text(bytes)
            &&& forall|i: int| 0 <= i < u@.len() ==> uid_alphabet().contains(#[trigger] u@[i])
        },
{
    let mut bytes: Vec<u8> = vec![0u8, 64];
    if !fill_from_os(&mut bytes) {
        return None;
    }
    let res = uid_from_bytes(&bytes);
    proof {
        reveal_strlit("abcdefghijklmnopqrstuvwxyzABCDEFGHIJKLMNOPQRSTUVWXYZ0123456789_");
        assert forall|i: int| 0 <= i < res@.len() implies uid_alphabet().contains(#[trigger] res@[i]) by {
            let k = (bytes@[i] % 63) as int;
            assert(uid_alphabet()[k] == res@[i]);
        }
    }
    Some(res)
}

} // verus!
