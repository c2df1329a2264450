use vstd::prelude::*;
use crate::mention::{scope_from_capture, scope_mention, scope_mention_spec, scope_of, ReminderScope};
use crate::phrase::{is_literal_word, phrase_split, phrase_split_spec};
use crate::remind::{opt_chars, ReminderError};
use crate::text::{
    append, chars_of, decimal_text, find_first, first_occurrence, lemma_first_occurrence, owned,
    parse_u64_spec, replace_all, replace_all_text, skip_chars, string_of, take_chars, u64_text,
};

verus! {

/// `args.splitn(2, sep)` when it gives two pieces: the text before the first
/// `sep` and the text after it.
pub open spec fn split_once_spec(args: Seq<char>, sep: Seq<char>) -> Option<(Seq<char>, Seq<char>)> {
    match first_occurrence(args, sep) {
        Some(i) => Some((args.take(i), args.skip(i + sep.len()))),
        None => None,
    }
}

/// Splits the text of `natural` at the first occurrence of the localised word
/// for "send": the time phrase before it and the message after it.
pub fn split_once(args: &str, sep: &str) -> (res: Option<(String, String)>)
    ensures
        match res {
            Some((a, b)) => split_once_spec(args@, sep@) == Some((a@, b@)),
            None => split_once_spec(args@, sep@) is None,
        },
{
    let chars = chars_of(args);
    let pat = chars_of(sep);
    match find_first(&chars, &pat) {
        Some(i) => {
            proof {
                lemma_first_occurrence(chars@, pat@);
            }
            assert(i + pat.len() <= chars.len());
            let before = take_chars(&chars, i);
            let after = skip_chars(&chars, i + pat.len());
            Some((string_of(&before), string_of(&after)))
        },
        None => None,
    }
}

/// Why the targets of `natural` cannot be read; the command panics on each.
#[derive(Debug, Clone, Copy, PartialEq, Eq, Structural)]
pub enum NaturalError {
    /// The pattern that the localised word makes does not compile, or a match
    /// of it lacks one of its named groups.
    BadPattern,
    /// A mention names an id that does not fit a `u64`.
    BadId,
}

/// The pattern `natural` makes with the localised word for "to":
/// `(?P<msg>.*) <to> (?P<mentions>((?:<@\d+>)|(?:<@!\d+>)|(?:<#\d+>)|(?:\s+))+)$`.
pub open spec fn to_pattern(word: Seq<char>) -> Seq<char> {
    "(?P<msg>.*) "@ + word + " (?P<mentions>((?:<@\\d+>)|(?:<@!\\d+>)|(?:<#\\d+>)|(?:\\s+))+)$"@
}

/// The pattern `natural` makes with the localised word for "every":
/// `(?P<msg>.*) <every> (?P<interval>.*)$`.
pub open spec fn every_pattern(word: Seq<char>) -> Seq<char> {
    "(?P<msg>.*) "@ + word + " (?P<interval>.*)$"@
}

/// What the regex crate reports for `pattern` searched in `text`: `None` when
/// the pattern does not compile, `Some(None)` when it does not match, and
/// otherwise the text of the groups named `first` and `second` in the first
/// match (`None` for a group that took no part in it).
pub uninterp spec fn regex_named_captures(pattern: Seq<char>, text: Seq<char>, first: Seq<char>, second: Seq<char>) -> Option<Option<(Option<Seq<char>>, Option<Seq<char>>)>>;

/// A match's two groups with their strings seen as characters.
pub open spec fn match_view(r: Option<(Option<String>, Option<String>)>) -> Option<(Option<Seq<char>>, Option<Seq<char>>)> {
    match r {
        None => None,
        Some((a, b)) => Some((opt_chars(a), opt_chars(b))),
    }
}

/// A capture result with its strings seen as characters.
pub open spec fn captures_view(r: Option<Option<(Option<String>, Option<String>)>>) -> Option<Option<(Option<Seq<char>>, Option<Seq<char>>)>> {
    match r {
        None => None,
        Some(m) => Some(match_view(m)),
    }
}

/// The first match of a regular expression, through the regex crate:
/// `Regex::new(pattern)`, then `captures(text)`, then `Captures::name` for
/// each of the two group names. The contract names the result; it depends on
/// these four arguments alone.
#[verifier::external_body]
fn named_captures(pattern: &str, text: &str, first: &str, second: &str) -> (res: Option<Option<(Option<String>, Option<String>)>>)
    ensures
        captures_view(res) == regex_named_captures(pattern@, text@, first@, second@),
{
    let re = match regex::Regex::new(pattern) {
        Ok(re) => re,
        Err(_) => return None,
    };
    Some(re.captures(text).map(|c| {
        (c.name(first).map(|m| m.as_str().to_string()), c.name(second).map(|m| m.as_str().to_string()))
    }))
}

/// The two groups of a match, or no match; a match that lacks a group is an
/// error, as the command unwraps both.
pub open spec fn groups_spec(r: Option<(Option<Seq<char>>, Option<Seq<char>>)>) -> Result<Option<(Seq<char>, Seq<char>)>, NaturalError> {
    match r {
        None => Ok(None),
        Some((Some(a), Some(b))) => Ok(Some((a, b))),
        _ => Err(NaturalError::BadPattern),
    }
}

/// Reads the two groups from a match that the regex crate reported.
pub fn groups_from_match(r: Option<(Option<String>, Option<String>)>) -> (res: Result<Option<(String, String)>, NaturalError>)
    ensures
        match res {
            Ok(Some((a, b))) => groups_spec(match_view(r)) == Ok::<Option<(Seq<char>, Seq<char>)>, NaturalError>(Some((a@, b@))),
            Ok(None) => groups_spec(match_view(r)) == Ok::<Option<(Seq<char>, Seq<char>)>, NaturalError>(None),
            Err(e) => groups_spec(match_view(r)) == Err::<Option<(Seq<char>, Seq<char>)>, NaturalError>(e),
        },
{
    match r {
        None => Ok(None),
        Some((Some(a), Some(b))) => Ok(Some((a, b))),
        Some(_) => Err(NaturalError::BadPattern),
    }
}

/// The two groups that `natural`'s pattern with `word` captures in `text`:
/// the verified matcher for a word without regular-expression syntax, the
/// regex crate for any other word. `mentions` picks the pattern for "to",
/// otherwise the one for "every".
pub open spec fn word_split_spec(text: Seq<char>, word: Seq<char>, mentions: bool) -> Result<Option<(Seq<char>, Seq<char>)>, NaturalError> {
    if is_literal_word(word) {
        Ok(phrase_split_spec(text, word, mentions))
    } else {
        let pattern = if mentions { to_pattern(word) } else { every_pattern(word) };
        let second = if mentions { "mentions"@ } else { "interval"@ };
        match regex_named_captures(pattern, text, "msg"@, second) {
            None => Err(NaturalError::BadPattern),
            Some(r) => groups_spec(r),
        }
    }
}

/// The pattern made with `word`, for "to" when `mentions`, else for "every".
fn pattern_for(word: &str, mentions: bool) -> (res: String)
    ensures
        res@ == (if mentions { to_pattern(word@) } else { every_pattern(word@) }),
{
    let mut out = chars_of("(?P<msg>.*) ");
    append(&mut out, &chars_of(word));
    if mentions {
        append(&mut out, &chars_of(" (?P<mentions>((?:<@\\d+>)|(?:<@!\\d+>)|(?:<#\\d+>)|(?:\\s+))+)$"));
    } else {
        append(&mut out, &chars_of(" (?P<interval>.*)$"));
    }
    string_of(&out)
}

/// Splits `text` with `natural`'s pattern for `word` (see `word_split_spec`).
fn word_split(text: &str, word: &str, mentions: bool) -> (res: Result<Option<(String, String)>, NaturalError>)
    ensures
        match res {
            Ok(Some((a, b))) => word_split_spec(text@, word@, mentions) == Ok::<Option<(Seq<char>, Seq<char>)>, NaturalError>(Some((a@, b@))),
            Ok(None) => word_split_spec(text@, word@, mentions) == Ok::<Option<(Seq<char>, Seq<char>)>, NaturalError>(None),
            Err(e) => word_split_spec(text@, word@, mentions) == Err::<Option<(Seq<char>, Seq<char>)>, NaturalError>(e),
        },
{
    if literal_word(word) {
        match phrase_split(&chars_of(text), &chars_of(word), mentions) {
            Some((a, b)) => Ok(Some((string_of(&a), string_of(&b)))),
            None => Ok(None),
        }
    } else {
        let pattern = pattern_for(word, mentions);
        let second = if mentions { owned("mentions") } else { owned("interval") };
        proof {
            reveal_strlit("msg");
        }
        match named_captures(pattern.as_str(), text, "msg", second.as_str()) {
            None => Err(NaturalError::BadPattern),
            Some(r) => groups_from_match(r),
        }
    }
}

/// Whether `w` holds no regular-expression syntax.
pub fn literal_word(w: &str) -> (res: bool)
    ensures
        res == is_literal_word(w@),
{
    let cs = chars_of(w);
    let mut i: usize = 0;
    while i < cs.len()
        invariant
            i <= cs.len(),
            cs@ == w@,
            forall|k: int| 0 <= k < i ==> !crate::phrase::is_regex_meta(#[trigger] cs@[k]),
        decreases cs.len() - i,
    {
        let c = cs[i];
        if c == '\\' || c == '.' || c == '+' || c == '*' || c == '?' || c == '(' || c == ')' || c == '|'
            || c == '[' || c == ']' || c == '{' || c == '}' || c == '^' || c == '$' {
            return false;
        }
        i = i + 1;
    }
    true
}

/// The content and the scopes from the two groups of the "to" pattern: no
/// match leaves the whole message for the current channel; a match gives the
/// first group as the content and, as the scopes, the one scope that the
/// mentions are when they are a single mention with white space around it,
/// and none otherwise.
pub open spec fn targets_from_split_spec(message: Seq<char>, split: Option<(Seq<char>, Seq<char>)>, channel: u64) -> Result<(Seq<char>, Seq<ReminderScope>), NaturalError> {
    match split {
        None => Ok((message, seq![ReminderScope::Channel(channel)])),
        Some((content, mentions)) => match scope_mention_spec(mentions) {
            Some((sigil, d)) => match parse_u64_spec(d) {
                Some(id) => Ok((content, seq![scope_of(sigil, id)])),
                None => Err(NaturalError::BadId),
            },
            None => Ok((content, Seq::empty())),
        },
    }
}

/// The content and the scopes of a `natural` reminder from the groups that
/// the "to" pattern captured in the message (see `targets_from_split_spec`).
pub fn targets_from_split(message: &str, split: Option<(String, String)>, channel: u64) -> (res: Result<(String, Vec<ReminderScope>), NaturalError>)
    ensures
        match res {
            Ok((c, v)) => targets_from_split_spec(message@, match split {
                Some((a, b)) => Some((a@, b@)),
                None => None,
            }, channel) == Ok::<(Seq<char>, Seq<ReminderScope>), NaturalError>((c@, v@)),
            Err(e) => targets_from_split_spec(message@, match split {
                Some((a, b)) => Some((a@, b@)),
                None => None,
            }, channel) == Err::<(Seq<char>, Seq<ReminderScope>), NaturalError>(e),
        },
{
    match split {
        None => {
            let mut here: Vec<ReminderScope> = Vec::new();
            here.push(ReminderScope::Channel(channel));
            assert(here@ =~= seq![ReminderScope::Channel(channel)]);
            Ok((owned(message), here))
        },
        Some((content, mentions)) => {
            let mut scopes: Vec<ReminderScope> = Vec::new();
            match scope_mention(&chars_of(mentions.as_str())) {
                Some((sigil, d)) => {
                    match scope_from_capture(sigil, &d) {
                        Some(sc) => {
                            scopes.push(sc);
                            assert(scopes@ =~= seq![sc]);
                            Ok((content, scopes))
                        },
                        None => Err(NaturalError::BadId),
                    }
                },
                None => {
                    assert(scopes@ =~= Seq::<ReminderScope>::empty());
                    Ok((content, scopes))
                },
            }
        },
    }
}

/// The content of a `natural` reminder and where it goes, before any interval
/// is taken off. Outside a guild the whole message goes to the current
/// channel; in a guild the message is split with the "to" pattern.
pub open spec fn natural_targets_spec(message: Seq<char>, to_word: Seq<char>, channel: u64, in_guild: bool) -> Result<(Seq<char>, Seq<ReminderScope>), NaturalError> {
    if !in_guild {
        Ok((message, seq![ReminderScope::Channel(channel)]))
    } else {
        match word_split_spec(message, to_word, true) {
            Ok(split) => targets_from_split_spec(message, split, channel),
            Err(e) => Err(e),
        }
    }
}

/// Reads the content and the scopes of a `natural` reminder from its message.
pub fn natural_targets(message: &str, to_word: &str, channel: u64, in_guild: bool) -> (res: Result<(String, Vec<ReminderScope>), NaturalError>)
    ensures
        match res {
            Ok((c, v)) => natural_targets_spec(message@, to_word@, channel, in_guild) == Ok::<(Seq<char>, Seq<ReminderScope>), NaturalError>((c@, v@)),
            Err(e) => natural_targets_spec(message@, to_word@, channel, in_guild) == Err::<(Seq<char>, Seq<ReminderScope>), NaturalError>(e),
        },
{
    if !in_guild {
        return targets_from_split(message, None, channel);
    }
    match word_split(message, to_word, true) {
        Ok(split) => targets_from_split(message, split, channel),
        Err(e) => Err(e),
    }
}

/// The message and the interval phrase of a `natural` reminder from a
/// subscriber: the groups of `(?P<msg>.*) <every> (?P<interval>.*)$`, when the
/// content matches it.
pub fn natural_interval_split(content: &str, every_word: &str) -> (res: Result<Option<(String, String)>, NaturalError>)
    ensures
        match res {
            Ok(Some((a, b))) => word_split_spec(content@, every_word@, false) == Ok::<Option<(Seq<char>, Seq<char>)>, NaturalError>(Some((a@, b@))),
            Ok(None) => word_split_spec(content@, every_word@, false) == Ok::<Option<(Seq<char>, Seq<char>)>, NaturalError>(None),
            Err(e) => word_split_spec(content@, every_word@, false) == Err::<Option<(Seq<char>, Seq<char>)>, NaturalError>(e),
        },
{
    word_split(content, every_word, false)
}

/// The phrase handed to the date parser for an interval: `1 <phrase>`.
pub fn interval_phrase(phrase: &str) -> (res: String)
    ensures
        res@ == "1 "@ + phrase@,
{
    let mut out = chars_of("1 ");
    append(&mut out, &chars_of(phrase));
    string_of(&out)
}

/// The interval, in seconds, from the time the date parser gives for
/// `1 <phrase>` (seconds since the epoch) and the current time.
pub fn natural_interval(parsed: i64, now: i64) -> (res: i64)
    requires
        i64::MIN <= parsed - now <= i64::MAX,
    ensures
        res == parsed - now,
{
    parsed - now
}

/// The closing reply of `natural`: `successfully set <n> reminders`.
pub fn natural_summary(count: u64) -> (res: String)
    ensures
        res@ == "successfully set "@ + decimal_text(count as nat) + " reminders"@,
{
    let mut out = chars_of("successfully set ");
    append(&mut out, &u64_text(count));
    append(&mut out, &chars_of(" reminders"));
    string_of(&out)
}

/// How many of the reminders were set.
pub open spec fn successes(outcomes: Seq<Result<(), ReminderError>>) -> nat
    decreases outcomes.len(),
{
    if outcomes.len() == 0 {
        0
    } else {
        successes(outcomes.drop_last()) + if outcomes.last() is Ok { 1nat } else { 0nat }
    }
}

/// The closing reply of `natural`: when the date parser gave no time, the
/// report that it failed; otherwise how many of the reminders, one per scope,
/// were set.
pub open spec fn natural_reply_spec(time_read: bool, outcomes: Seq<Result<(), ReminderError>>) -> Seq<char> {
    if time_read {
        "successfully set "@ + decimal_text(successes(outcomes)) + " reminders"@
    } else {
        "DEV ERROR: Failed to invoke Python"@
    }
}

/// Writes the closing reply of `natural` from the outcome of each reminder.
pub fn natural_reply(time_read: bool, outcomes: &Vec<Result<(), ReminderError>>) -> (res: String)
    ensures
        res@ == natural_reply_spec(time_read, outcomes@),
{
    if !time_read {
        return owned("DEV ERROR: Failed to invoke Python");
    }
    let mut count: u64 = 0;
    let mut i: usize = 0;
    while i < outcomes.len()
        invariant
            i <= outcomes.len(),
            count == successes(outcomes@.take(i as int)),
            count <= i,
        decreases outcomes.len() - i,
    {
        proof {
            assert(outcomes@.take(i + 1).drop_last() == outcomes@.take(i as int));
        }
        if outcomes[i].is_ok() {
            count = count + 1;
        }
        i = i + 1;
    }
    assert(outcomes@.take(outcomes.len() as int) == outcomes@);
    natural_summary(count)
}

/// The help of `natural`: every `{prefix}` in the template replaced by the
/// guild's command prefix.
pub fn natural_help(template: &str, prefix: &str) -> (res: String)
    ensures
        res@ == replace_all_text(template@, "{prefix}"@, prefix@),
{
    let pat = chars_of("{prefix}");
    proof {
        reveal_strlit("{prefix}");
    }
    string_of(&replace_all(&chars_of(template), &pat, &chars_of(prefix)))
}

/// When the text splits, the two pieces with the separator between them give
/// the text back, and the first piece holds no separator.
pub proof fn lemma_split_once_reassembles(args: Seq<char>, sep: Seq<char>)
    ensures
        split_once_spec(args, sep) matches Some((a, b)) ==> args == a + sep + b && first_occurrence(a + sep, sep)
            == Some(a.len() as int),
{
    lemma_first_occurrence(args, sep);
    if let Some(i) = first_occurrence(args, sep) {
        let a = args.take(i);
        let b = args.skip(i + sep.len());
        assert(args.subrange(i, i + sep.len()) == sep);
        assert(args =~= a + sep + b);
        let t = a + sep;
        lemma_first_occurrence(t, sep);
        assert(t.subrange(i, i + sep.len()) =~= sep);
        assert forall|j: int| 0 <= j < i implies !crate::text::occurs_at(t, sep, j) by {
            if crate::text::occurs_at(t, sep, j) {
                assert(t.subrange(j, j + sep.len()) =~= args.subrange(j, j + sep.len()));
                assert(crate::text::occurs_at(args, sep, j));
            }
        }
        assert(crate::text::occurs_at(t, sep, i));
        assert(first_occurrence(t, sep) is Some);
        let m = first_occurrence(t, sep).unwrap();
        assert(m <= i);
        if m < i {
            assert(!crate::text::occurs_at(t, sep, m));
        }
        assert(m == i);
        assert(a.len() == i);
    }
}

} // verus!
