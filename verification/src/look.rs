use vstd::prelude::*;
use crate::mention::{
    channel_mention, channel_mention_at, channel_mention_spec, decimal_run,
    lemma_channel_mention_unique, mention_text, ReminderScope,
};
use crate::listing::{look_line, look_line_text};
use crate::text::{
    all_ascii_digits, chars_eq, chars_of, decimal_text, lemma_decimal_text_digits,
    lemma_split_without_separator, parse_u16, parse_u16_spec, parse_u64, parse_u64_spec,
    owned, split_chars, string_seqs, split_text, string_of, u64_text, seqs,
};

verus! {

/// How `look` shows a reminder's time.
#[derive(Debug, Clone, Copy, PartialEq, Eq, Structural)]
pub enum TimeDisplayType {
    Absolute,
    Relative,
}

/// The options of the `look` command.
#[derive(Debug, Clone, Copy, PartialEq, Eq, Structural)]
pub struct LookFlags {
    pub limit: u16,
    pub show_disabled: bool,
    pub channel_id: Option<u64>,
    pub time_display: TimeDisplayType,
}

/// The options before any word is read: every reminder, of the current
/// channel, with relative times.
pub open spec fn default_look_flags() -> LookFlags {
    LookFlags {
        limit: u16::MAX,
        show_disabled: true,
        channel_id: None,
        time_display: TimeDisplayType::Relative,
    }
}

/// A word that sets an option by its name.
pub open spec fn is_option_word(w: Seq<char>) -> bool {
    w == "enabled"@ || w == "time"@
}

/// The last word that parses as a `u16`, read as one.
pub open spec fn last_limit(ws: Seq<Seq<char>>) -> Option<u16>
    decreases ws.len(),
{
    if ws.len() == 0 {
        None
    } else {
        match parse_u16_spec(ws.last()) {
            Some(v) => Some(v),
            None => last_limit(ws.drop_last()),
        }
    }
}

/// Some word is neither an option name nor a number: such a word makes `look`
/// read a channel mention from the whole argument text.
pub open spec fn has_other_word(ws: Seq<Seq<char>>) -> bool {
    exists|i: int| 0 <= i < ws.len() && !is_option_word(ws[i]) && #[trigger] parse_u16_spec(ws[i]) is None
}

/// The channel that `^\s*<#(\d+)>\s*$` names in `args`, if it matches.
pub open spec fn mentioned_channel(args: Seq<char>) -> Option<u64> {
    match channel_mention_spec(args) {
        Some(d) => parse_u64_spec(d),
        None => None,
    }
}

/// The options that the argument text `args` of `look` gives.
pub open spec fn look_flags_spec(args: Seq<char>) -> LookFlags {
    let ws = split_text(args, ' ');
    LookFlags {
        limit: match last_limit(ws) {
            Some(v) => v,
            None => u16::MAX,
        },
        show_disabled: !ws.contains("enabled"@),
        channel_id: if has_other_word(ws) {
            mentioned_channel(args)
        } else {
            None
        },
        time_display: if ws.contains("time"@) {
            TimeDisplayType::Absolute
        } else {
            TimeDisplayType::Relative
        },
    }
}

/// A word added at the end makes the words hold another word exactly when
/// they held one already or the new word is one.
proof fn lemma_other_word_push(t: Seq<Seq<char>>, w: Seq<char>)
    ensures
        has_other_word(t.push(w)) == (has_other_word(t) || (!is_option_word(w) && parse_u16_spec(w) is None)),
{
    let t1 = t.push(w);
    if has_other_word(t1) {
        let k = choose|k: int| 0 <= k < t1.len() && !is_option_word(t1[k]) && #[trigger] parse_u16_spec(t1[k]) is None;
        if k < t.len() {
            assert(t[k] == t1[k]);
        }
    }
    if has_other_word(t) {
        let k = choose|k: int| 0 <= k < t.len() && !is_option_word(t[k]) && #[trigger] parse_u16_spec(t[k]) is None;
        assert(t1[k] == t[k]);
    }
    if !is_option_word(w) && parse_u16_spec(w) is None {
        assert(t1[t.len() as int] == w);
    }
}

impl Default for LookFlags {
    fn default() -> (res: Self)
        ensures
            res == default_look_flags(),
    {
        LookFlags {
            limit: u16::MAX,
            show_disabled: true,
            channel_id: None,
            time_display: TimeDisplayType::Relative,
        }
    }
}

impl LookFlags {
    /// Reads the options from the words of `args`, split at each space:
    /// `enabled` hides disabled reminders, `time` shows absolute times, a
    /// number sets the limit (the last one counts), and any other word makes
    /// the channel the one that `args` as a whole mentions (`<#id>`), or none.
    pub fn from_string(args: &str) -> (res: Self)
        requires
            channel_mention_spec(args@) matches Some(d) ==> parse_u64_spec(d) is Some,
        ensures
            res == look_flags_spec(args@),
    {
        let mut new_flags: Self = LookFlags::default();
        let chars = chars_of(args);
        let pieces = split_chars(&chars, ' ');
        let enabled = chars_of("enabled");
        let time = chars_of("time");
        let ghost ws = split_text(args@, ' ');
        let mut i: usize = 0;
        while i < pieces.len()
            invariant
                i <= pieces.len(),
                chars@ == args@,
                seqs(pieces@) == ws,
                ws == split_text(args@, ' '),
                enabled@ == "enabled"@,
                time@ == "time"@,
                channel_mention_spec(args@) matches Some(d) ==> parse_u64_spec(d) is Some,
                new_flags == ({
                    let t = ws.take(i as int);
                    LookFlags {
                        limit: match last_limit(t) {
                            Some(v) => v,
                            None => u16::MAX,
                        },
                        show_disabled: !t.contains("enabled"@),
                        channel_id: if has_other_word(t) {
                            mentioned_channel(args@)
                        } else {
                            None
                        },
                        time_display: if t.contains("time"@) {
                            TimeDisplayType::Absolute
                        } else {
                            TimeDisplayType::Relative
                        },
                    }
                }),
            decreases pieces.len() - i,
        {
            let param = &pieces[i];
            let ghost t = ws.take(i as int);
            let ghost t1 = ws.take(i + 1);
            proof {
                assert(t1.drop_last() == t);
                assert(t1.last() == param@);
                assert(t1 =~= t.push(param@));
                assert forall|w: Seq<char>| t1.contains(w) <==> (t.contains(w) || w == param@) by {
                    if t1.contains(w) {
                        let k = choose|k: int| 0 <= k < t1.len() && t1[k] == w;
                        if k < t.len() {
                            assert(t[k] == w);
                        }
                    }
                    if t.contains(w) {
                        let k = choose|k: int| 0 <= k < t.len() && t[k] == w;
                        assert(t1[k] == w);
                    }
                    if w == param@ {
                        assert(t1[t.len() as int] == w);
                    }
                }
            }
            if chars_eq(param, &enabled) {
                new_flags.show_disabled = false;
                proof {
                    lemma_other_word_push(t, param@);
                    reveal_strlit("enabled");
                    reveal_strlit("time");
                    assert(parse_u16_spec(param@) is None) by {
                        assert(param@[0] == 'e');
                    }
                }
            } else if chars_eq(param, &time) {
                new_flags.time_display = TimeDisplayType::Absolute;
                proof {
                    lemma_other_word_push(t, param@);
                    reveal_strlit("enabled");
                    reveal_strlit("time");
                    assert(parse_u16_spec(param@) is None) by {
                        assert(param@[0] == 't');
                    }
                    assert(param@ != "enabled"@);
                }
            } else {
                match parse_u16(param) {
                    Some(val) => {
                        new_flags.limit = val;
                        proof {
                            lemma_other_word_push(t, param@);
                        }
                    },
                    None => {
                        new_flags.channel_id = match channel_mention(&chars) {
                            Some(d) => parse_u64(&d),
                            None => None,
                        };
                        proof {
                            lemma_other_word_push(t, param@);
                        }
                    },
                }
            }
            i = i + 1;
        }
        assert(ws.take(pieces.len() as int) == ws);
        new_flags
    }

    /// The channel whose reminders are listed: the mentioned one, else the
    /// one the command was given in.
    pub fn channel_or(&self, current: u64) -> (res: u64)
        ensures
            res == (match self.channel_id {
                Some(c) => c,
                None => current,
            }),
    {
        match self.channel_id {
            Some(c) => c,
            None => current,
        }
    }

    /// The set of `enabled` values the listing admits: `0,1` when disabled
    /// reminders are shown, `1` otherwise.
    pub fn enabled_filter(&self) -> (res: String)
        ensures
            res@ == (if self.show_disabled {
                "0,1"@
            } else {
                "1"@
            }),
    {
        if self.show_disabled {
            owned("0,1")
        } else {
            owned("1")
        }
    }

    /// The text `look` shows for a reminder due at `timestamp`: the timestamp
    /// in decimal, in either display mode.
    pub fn display_time(&self, timestamp: u64) -> (res: String)
        ensures
            res@ == decimal_text(timestamp as nat),
    {
        match self.time_display {
            TimeDisplayType::Absolute => string_of(&u64_text(timestamp)),
            TimeDisplayType::Relative => string_of(&u64_text(timestamp)),
        }
    }
}

/// What `look` answers: the key of its reply when there is no reminder to
/// list, otherwise one line per reminder.
pub enum LookReply {
    NoReminders(String),
    Lines(Vec<String>),
}

/// The lines of `look` for reminders given by name and time, with the
/// localised word `inter` between them.
pub open spec fn look_lines_spec(reminders: Seq<(String, u64)>, inter: Seq<char>) -> Seq<Seq<char>> {
    reminders.map_values(|r: (String, u64)| look_line_text(r.0@, inter, decimal_text(r.1 as nat)))
}

impl LookFlags {
    /// The channel whose reminders `look` lists: in a guild, the mentioned
    /// channel or else the current one; in direct messages, always the
    /// current one.
    pub fn look_channel(&self, current: u64, in_guild: bool) -> (res: u64)
        ensures
            res == (if in_guild {
                match self.channel_id {
                    Some(c) => c,
                    None => current,
                }
            } else {
                current
            }),
    {
        if in_guild {
            self.channel_or(current)
        } else {
            current
        }
    }

    /// The reply of `look` for the reminders found, each given by its name and
    /// time.
    pub fn look_reply(&self, reminders: &Vec<(String, u64)>, inter: &str) -> (res: LookReply)
        ensures
            match res {
                LookReply::NoReminders(k) => reminders@.len() == 0 && k@ == "look/no_reminders"@,
                LookReply::Lines(v) => reminders@.len() > 0 && string_seqs(v@) == look_lines_spec(reminders@, inter@),
            },
    {
        if reminders.len() == 0 {
            return LookReply::NoReminders(owned("look/no_reminders"));
        }
        let mut lines: Vec<String> = Vec::new();
        let mut i: usize = 0;
        while i < reminders.len()
            invariant
                i <= reminders.len(),
                lines@.len() == i,
                forall|k: int| 0 <= k < i ==> #[trigger] lines@[k]@ == look_lines_spec(reminders@, inter@)[k],
            decreases reminders.len() - i,
        {
            let t = self.display_time(reminders[i].1);
            lines.push(look_line(reminders[i].0.as_str(), inter, t.as_str()));
            i = i + 1;
        }
        assert(string_seqs(lines@) =~= look_lines_spec(reminders@, inter@));
        LookReply::Lines(lines)
    }
}

/// The words of `look` set its options: `enabled` anywhere hides disabled
/// reminders, `time` anywhere shows absolute times, the limit stays the
/// largest `u16` unless some word is a number, and a text of option words and
/// numbers only names no channel.
pub proof fn lemma_look_option_words(args: Seq<char>)
    ensures
        split_text(args, ' ').contains("enabled"@) <==> !look_flags_spec(args).show_disabled,
        split_text(args, ' ').contains("time"@) <==> look_flags_spec(args).time_display == TimeDisplayType::Absolute,
        (forall|i: int| 0 <= i < split_text(args, ' ').len() ==> #[trigger] parse_u16_spec(split_text(args, ' ')[i]) is None)
            ==> look_flags_spec(args).limit == u16::MAX,
        (forall|i: int| 0 <= i < split_text(args, ' ').len() ==> is_option_word(#[trigger] split_text(args, ' ')[i]))
            ==> look_flags_spec(args).channel_id is None,
{
    let ws = split_text(args, ' ');
    lemma_last_limit_none(ws);
}

/// No word is a number, so no limit is read.
proof fn lemma_last_limit_none(ws: Seq<Seq<char>>)
    ensures
        (forall|i: int| 0 <= i < ws.len() ==> #[trigger] parse_u16_spec(ws[i]) is None) ==> last_limit(ws) is None,
    decreases ws.len(),
{
    if ws.len() > 0 {
        lemma_last_limit_none(ws.drop_last());
        if forall|i: int| 0 <= i < ws.len() ==> #[trigger] parse_u16_spec(ws[i]) is None {
            assert(parse_u16_spec(ws[ws.len() - 1]) is None);
            assert forall|i: int| 0 <= i < ws.drop_last().len() implies #[trigger] parse_u16_spec(ws.drop_last()[i]) is None by {
                assert(parse_u16_spec(ws[i]) is None);
            }
        }
    }
}

/// Whether `LookFlags::from_string` accepts `args`: a channel mention that
/// the whole text is names an id that fits a `u64` (the command panics
/// otherwise).
pub fn look_args_ok(args: &str) -> (res: bool)
    ensures
        res == (channel_mention_spec(args@) matches Some(d) ==> parse_u64_spec(d) is Some),
{
    match channel_mention(&chars_of(args)) {
        Some(d) => parse_u64(&d).is_some(),
        None => true,
    }
}

/// `look` given just the mention of a channel lists that channel.
pub proof fn lemma_look_at_mentioned_channel(id: u64)
    ensures
        look_flags_spec(mention_text(ReminderScope::Channel(id))).channel_id == Some(id),
{
    let t = mention_text(ReminderScope::Channel(id));
    let d = decimal_text(id as nat);
    lemma_decimal_text_digits(id as nat);
    assert forall|i: int| 0 <= i < t.len() implies #[trigger] t[i] != ' ' by {
        if 2 <= i < t.len() - 1 {
            assert(t[i] == d[i - 2]);
        }
    }
    lemma_split_without_separator(t, ' ');
    let ws = split_text(t, ' ');
    reveal_strlit("enabled");
    reveal_strlit("time");
    assert(ws[0] == t);
    assert(t[0] == '<');
    assert(!is_option_word(ws[0]));
    assert(parse_u16_spec(ws[0]) is None);
    assert(has_other_word(ws));
    let b: int = 2 + d.len() as int;
    assert(t.subrange(2, b) =~= d);
    assert(t.take(0) =~= Seq::<char>::empty());
    assert(t.skip(b + 1) =~= Seq::<char>::empty());
    assert(decimal_run(d)) by {
        assert forall|i: int| 0 <= i < d.len() implies crate::unicode::is_decimal_digit(#[trigger] d[i]) by {
            assert(all_ascii_digits(d));
            assert('0' <= d[i] && d[i] <= '9');
        }
    }
    assert(channel_mention_at(t, 0, b));
    let (a2, b2) = choose|a2: int, b2: int| channel_mention_at(t, a2, b2);
    lemma_channel_mention_unique(t, a2, b2, 0, b);
}

} // verus!
