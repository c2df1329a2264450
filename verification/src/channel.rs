use vstd::prelude::*;
use crate::text::{chars_of, i64_text, owned, replace_first, replace_first_text, signed_text, string_of};

verus! {

// ---------------------------------------------------------------------------
// `pause`
// ---------------------------------------------------------------------------

/// Whether a channel's reminders are held back, and until when (seconds since
/// the Unix epoch; none for an indefinite pause).
#[derive(Debug, Clone, Copy, PartialEq, Eq, Structural)]
pub struct PauseState {
    pub paused: bool,
    pub paused_until: Option<i64>,
}

/// What `pause` does: the channel's new state, whether it is written back, and
/// the key of the reply.
pub struct PauseOutcome {
    pub state: PauseState,
    pub commit: bool,
    pub reply_key: String,
}

/// What `pause` does in a channel in state `state`, given its argument text
/// and the time read from it (`None` where none could be read): without
/// arguments the pause is toggled and made indefinite; with a time the channel
/// is paused until then; otherwise nothing changes.
pub open spec fn pause_spec(state: PauseState, args: Seq<char>, until: Option<i64>) -> (PauseState, bool, Seq<char>) {
    if args.len() == 0 {
        let paused = !state.paused;
        (
            PauseState { paused, paused_until: None },
            true,
            if paused {
                "pause/paused_indefinite"@
            } else {
                "pause/unpaused"@
            },
        )
    } else {
        match until {
            Some(t) => (PauseState { paused: true, paused_until: Some(t) }, true, "pause/paused_until"@),
            None => (state, false, "pause/invalid_time"@),
        }
    }
}

/// Decides what `pause` does.
pub fn pause(state: PauseState, args: &str, until: Option<i64>) -> (res: PauseOutcome)
    ensures
        (res.state, res.commit, res.reply_key@) == pause_spec(state, args@, until),
{
    if chars_of(args).len() == 0 {
        let paused = !state.paused;
        let key = if paused {
            owned("pause/paused_indefinite")
        } else {
            owned("pause/unpaused")
        };
        PauseOutcome { state: PauseState { paused, paused_until: None }, commit: true, reply_key: key }
    } else {
        match until {
            Some(t) => PauseOutcome {
                state: PauseState { paused: true, paused_until: Some(t) },
                commit: true,
                reply_key: owned("pause/paused_until"),
            },
            None => PauseOutcome { state, commit: false, reply_key: owned("pause/invalid_time") },
        }
    }
}

/// `pause` without arguments, given twice, leaves the channel paused as it
/// was, with no end time.
pub proof fn lemma_pause_toggle_twice(state: PauseState, until1: Option<i64>, until2: Option<i64>)
    ensures
        ({
            let once = pause_spec(state, Seq::empty(), until1).0;
            let twice = pause_spec(once, Seq::empty(), until2).0;
            twice == PauseState { paused: state.paused, paused_until: None }
        }),
{
}

/// `pause` without arguments flips the pause, drops any end time and always
/// writes the new state back, whether it pauses or unpauses the channel; the
/// reply says which of the two happened.
pub proof fn lemma_pause_toggle_commits(state: PauseState, args: Seq<char>, until: Option<i64>)
    requires
        args.len() == 0,
    ensures
        pause_spec(state, args, until).0.paused == !state.paused,
        pause_spec(state, args, until).0.paused_until is None,
        pause_spec(state, args, until).1,
        pause_spec(state, args, until).2 == (if state.paused {
            "pause/unpaused"@
        } else {
            "pause/paused_indefinite"@
        }),
{
}

/// `pause` with arguments from which no time could be read changes nothing and
/// writes nothing back.
pub proof fn lemma_pause_invalid_keeps_state(state: PauseState, args: Seq<char>)
    requires
        args.len() > 0,
    ensures
        pause_spec(state, args, None).0 == state,
        !pause_spec(state, args, None).1,
        pause_spec(state, args, None).2 == "pause/invalid_time"@,
{
}

/// A pause with a time always pauses the channel until that time.
pub proof fn lemma_pause_until(state: PauseState, args: Seq<char>, t: i64)
    requires
        args.len() > 0,
    ensures
        pause_spec(state, args, Some(t)).0 == (PauseState { paused: true, paused_until: Some(t) }),
        pause_spec(state, args, Some(t)).1,
{
}

// ---------------------------------------------------------------------------
// `offset` and `nudge`
// ---------------------------------------------------------------------------

/// The template with its first `{}` replaced by `n` in decimal.
pub open spec fn fill_number_text(template: Seq<char>, n: int) -> Seq<char> {
    replace_first_text(template, "{}"@, signed_text(n))
}

/// Fills the first `{}` of a reply template with a number.
pub fn fill_number(template: &str, n: i64) -> (res: String)
    ensures
        res@ == fill_number_text(template@, n as int),
{
    string_of(&replace_first(&chars_of(template), &chars_of("{}"), &i64_text(n)))
}

/// What `offset` does.
#[derive(Debug, Clone, Copy, PartialEq, Eq, Structural)]
pub enum OffsetOutcome {
    /// No arguments: the command's help is shown.
    Help,
    /// No time could be read from the arguments.
    Invalid,
    /// Every reminder is moved by this many seconds.
    Shift(i64),
}

/// What `offset` does, given its argument text and the displacement read from
/// it (`None` where none could be read).
pub open spec fn offset_spec(args: Seq<char>, displacement: Option<i64>) -> OffsetOutcome {
    if args.len() == 0 {
        OffsetOutcome::Help
    } else {
        match displacement {
            Some(d) => OffsetOutcome::Shift(d),
            None => OffsetOutcome::Invalid,
        }
    }
}

/// Decides what `offset` does.
pub fn offset_outcome(args: &str, displacement: Option<i64>) -> (res: OffsetOutcome)
    ensures
        res == offset_spec(args@, displacement),
{
    if chars_of(args).len() == 0 {
        OffsetOutcome::Help
    } else {
        match displacement {
            Some(d) => OffsetOutcome::Shift(d),
            None => OffsetOutcome::Invalid,
        }
    }
}

/// The reply key of each outcome of `offset`.
pub open spec fn offset_key(o: OffsetOutcome) -> Seq<char> {
    match o {
        OffsetOutcome::Help => "offset/help"@,
        OffsetOutcome::Invalid => "offset/invalid_time"@,
        OffsetOutcome::Shift(_) => "offset/success"@,
    }
}

impl OffsetOutcome {
    /// The key of the reply; the reply for a shift has its `{}` filled with
    /// the displacement (see `fill_number`).
    pub fn reply_key(&self) -> (res: String)
        ensures
            res@ == offset_key(*self),
    {
        match self {
            OffsetOutcome::Help => owned("offset/help"),
            OffsetOutcome::Invalid => owned("offset/invalid_time"),
            OffsetOutcome::Shift(_) => owned("offset/success"),
        }
    }
}

/// The reminder times, in seconds, after `offset` ends with outcome `o`: a
/// shift moves every one of them by the displacement.
pub open spec fn shifted_times(times: Seq<int>, o: OffsetOutcome) -> Seq<int> {
    match o {
        OffsetOutcome::Shift(d) => times.map_values(|t: int| t + d),
        _ => times,
    }
}

/// An offset by `d` moves every reminder by `d` seconds, and an offset by `d`
/// followed by an offset by `-d` gives every reminder its time back.
pub proof fn lemma_offset_round_trip(times: Seq<int>, args1: Seq<char>, args2: Seq<char>, d: i64)
    requires
        args1.len() > 0,
        args2.len() > 0,
        d > i64::MIN,
    ensures
        shifted_times(times, offset_spec(args1, Some(d))).len() == times.len(),
        forall|i: int| 0 <= i < times.len() ==> #[trigger] shifted_times(times, offset_spec(args1, Some(d)))[i]
            == times[i] + d,
        shifted_times(shifted_times(times, offset_spec(args1, Some(d))), offset_spec(args2, Some((-d) as i64)))
            == times,
{
    let once = shifted_times(times, offset_spec(args1, Some(d)));
    let twice = shifted_times(once, offset_spec(args2, Some((-d) as i64)));
    assert(twice =~= times);
}

/// What `nudge` does.
#[derive(Debug, Clone, Copy, PartialEq, Eq, Structural)]
pub enum NudgeOutcome {
    /// No arguments, no time read, or a time outside the range of an `i16`.
    Invalid,
    /// The channel's nudge becomes this many seconds.
    Apply(i16),
}

/// What `nudge` does, given its argument text and the displacement read from
/// it (`None` where none could be read).
pub open spec fn nudge_spec(args: Seq<char>, displacement: Option<i64>) -> NudgeOutcome {
    if args.len() == 0 {
        NudgeOutcome::Invalid
    } else {
        match displacement {
            Some(d) => if i16::MIN <= d <= i16::MAX {
                NudgeOutcome::Apply(d as i16)
            } else {
                NudgeOutcome::Invalid
            },
            None => NudgeOutcome::Invalid,
        }
    }
}

/// Decides what `nudge` does.
pub fn nudge_outcome(args: &str, displacement: Option<i64>) -> (res: NudgeOutcome)
    ensures
        res == nudge_spec(args@, displacement),
{
    if chars_of(args).len() == 0 {
        NudgeOutcome::Invalid
    } else {
        match displacement {
            Some(d) => {
                if d < i16::MIN as i64 || d > i16::MAX as i64 {
                    NudgeOutcome::Invalid
                } else {
                    NudgeOutcome::Apply(d as i16)
                }
            },
            None => NudgeOutcome::Invalid,
        }
    }
}

/// The reply key of each outcome of `nudge`.
pub open spec fn nudge_key(o: NudgeOutcome) -> Seq<char> {
    match o {
        NudgeOutcome::Invalid => "nudge/invalid_time"@,
        NudgeOutcome::Apply(_) => "nudge/success"@,
    }
}

impl NudgeOutcome {
    /// The key of the reply; the reply for a new nudge has its `{}` filled
    /// with it (see `fill_number`).
    pub fn reply_key(&self) -> (res: String)
        ensures
            res@ == nudge_key(*self),
    {
        match self {
            NudgeOutcome::Invalid => owned("nudge/invalid_time"),
            NudgeOutcome::Apply(_) => owned("nudge/success"),
        }
    }
}

/// A nudge is set exactly when a displacement was read and fits an `i16`, and
/// then it is that displacement.
pub proof fn lemma_nudge_set_iff_in_range(args: Seq<char>, displacement: Option<i64>)
    ensures
        (nudge_spec(args, displacement) is Apply) <==> (args.len() > 0 && (displacement matches Some(
            d) && i16::MIN <= d <= i16::MAX)),
        nudge_spec(args, displacement) matches NudgeOutcome::Apply(n) ==> displacement == Some(n as i64),
{
}

} // verus!
