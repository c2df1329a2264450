use vstd::prelude::*;
use crate::remind::opt_chars;
use crate::text::{
    all_ascii_digits, digits_value, lemma_decimal_text_digits, append, chars_eq, chars_of, find_first, first_occurrence, lemma_first_occurrence, owned, pad2,
    pad2_text, skip_chars, string_of, take_chars, u64_text, decimal_text,
};

verus! {

// ---------------------------------------------------------------------------
// Subcommands
// ---------------------------------------------------------------------------

/// What `timer` is asked to do.
#[derive(Debug, PartialEq, Eq)]
pub enum TimerCommand {
    /// `list`: show the owner's timers.
    List,
    /// `start [name]`: start a timer, named by the rest of the text if any.
    Start(Option<String>),
    /// `delete [name]`: delete the timer named by the rest of the text.
    Delete(Option<String>),
    /// Anything else: show the command's help.
    Help,
}

/// The text before the first space, and the text after it if there is one
/// (`args.splitn(2, ' ')`).
pub open spec fn first_and_rest(args: Seq<char>) -> (Seq<char>, Option<Seq<char>>) {
    match first_occurrence(args, seq![' ']) {
        Some(i) => (args.take(i), Some(args.skip(i + 1))),
        None => (args, None),
    }
}

/// The view of a subcommand: which one it is and its argument.
pub open spec fn timer_command_view(c: TimerCommand) -> (bool, bool, bool, Option<Seq<char>>) {
    match c {
        TimerCommand::List => (true, false, false, None),
        TimerCommand::Start(n) => (false, true, false, match n {
            Some(s) => Some(s@),
            None => None,
        }),
        TimerCommand::Delete(n) => (false, false, true, match n {
            Some(s) => Some(s@),
            None => None,
        }),
        TimerCommand::Help => (false, false, false, None),
    }
}

/// The subcommand that `args` asks `timer` for: `list`, `start` or `delete` as
/// the first word, with the text after the first space as the argument of the
/// last two; anything else asks for help.
pub open spec fn parse_timer_spec(args: Seq<char>) -> (bool, bool, bool, Option<Seq<char>>) {
    let (first, rest) = first_and_rest(args);
    if first == "list"@ {
        (true, false, false, None)
    } else if first == "start"@ {
        (false, true, false, rest)
    } else if first == "delete"@ {
        (false, false, true, rest)
    } else {
        (false, false, false, None)
    }
}

/// Reads the subcommand of `timer`.
pub fn parse_timer_command(args: &str) -> (res: TimerCommand)
    ensures
        timer_command_view(res).0 == parse_timer_spec(args@).0,
        timer_command_view(res).1 == parse_timer_spec(args@).1,
        timer_command_view(res).2 == parse_timer_spec(args@).2,
        timer_command_view(res).3 == parse_timer_spec(args@).3,
{
    let chars = chars_of(args);
    let space = chars_of(" ");
    proof {
        reveal_strlit(" ");
    }
    assert(space@ =~= seq![' ']);
    let (first, rest) = match find_first(&chars, &space) {
        Some(i) => {
            proof {
                lemma_first_occurrence(chars@, space@);
            }
            assert(i < chars.len());
            (take_chars(&chars, i), Some(string_of(&skip_chars(&chars, i + 1))))
        },
        None => (chars.clone(), None),
    };
    assert((first@, match rest {
        Some(r) => Some(r@),
        None => None,
    }) == first_and_rest(args@));
    if chars_eq(&first, &chars_of("list")) {
        TimerCommand::List
    } else if chars_eq(&first, &chars_of("start")) {
        TimerCommand::Start(rest)
    } else if chars_eq(&first, &chars_of("delete")) {
        TimerCommand::Delete(rest)
    } else {
        TimerCommand::Help
    }
}

/// The most timers one owner may run.
pub const TIMER_LIMIT: u32 = 25;

/// The name of a new timer: the given name, or `New timer #n` where the owner
/// already has `n - 1` timers; `None` when the owner already has `TIMER_LIMIT`
/// timers or more.
pub open spec fn timer_start_spec(count: u32, name: Option<Seq<char>>) -> Option<Seq<char>> {
    if count >= 25 {
        None
    } else {
        match name {
            Some(n) => Some(n),
            None => Some("New timer #"@ + decimal_text((count + 1) as nat)),
        }
    }
}

/// Decides the name of a timer to start, or that the owner has too many.
pub fn timer_start_name(count: u32, name: Option<&str>) -> (res: Option<String>)
    ensures
        (match res {
            Some(s) => Some(s@),
            None => None,
        }) == timer_start_spec(
            count,
            match name {
                Some(n) => Some(n@),
                None => None,
            },
        ),
{
    if count >= TIMER_LIMIT {
        None
    } else {
        match name {
            Some(n) => Some(owned(n)),
            None => {
                let mut text = chars_of("New timer #");
                append(&mut text, &u64_text(count as u64 + 1));
                Some(string_of(&text))
            },
        }
    }
}

/// A timer started without a name while the owner has `count` timers, fewer
/// than the limit, is named `New timer #` followed by the digits of
/// `count + 1`; so unnamed timers started at different counts get different
/// names.
pub proof fn lemma_unnamed_timer_numbered(count: u32, other: u32)
    requires
        count < 25,
        other < 25,
    ensures
        timer_start_spec(count, None) is Some,
        ({
            let t = timer_start_spec(count, None)->0;
            &&& t.take(11) == "New timer #"@
            &&& all_ascii_digits(t.skip(11))
            &&& digits_value(t.skip(11)) == count + 1
        }),
        count != other ==> timer_start_spec(count, None) != timer_start_spec(other, None),
{
    reveal_strlit("New timer #");
    lemma_decimal_text_digits((count + 1) as nat);
    lemma_decimal_text_digits((other + 1) as nat);
    let t = timer_start_spec(count, None)->0;
    let u = timer_start_spec(other, None)->0;
    assert(t.take(11) =~= "New timer #"@);
    assert(t.skip(11) =~= decimal_text((count + 1) as nat));
    assert(u.skip(11) =~= decimal_text((other + 1) as nat));
    if t == u {
        assert(t.skip(11) == u.skip(11));
    }
}

/// The key of the reply to `timer`, for the subcommand in view `cmd`, the
/// owner's number of timers `count` and whether a timer of the given name
/// exists: none for `list`, which answers with the timers themselves.
pub open spec fn timer_reply_spec(cmd: (bool, bool, bool, Option<Seq<char>>), count: u32, exists: bool) -> Option<Seq<char>> {
    if cmd.0 {
        None
    } else if cmd.1 {
        if count >= 25 {
            Some("timer/limit"@)
        } else {
            Some("timer/success"@)
        }
    } else if cmd.2 {
        match cmd.3 {
            None => Some("timer/help"@),
            Some(_) => if exists {
                Some("timer/deleted"@)
            } else {
                Some("timer/not_found"@)
            },
        }
    } else {
        Some("timer/help"@)
    }
}

/// Picks the reply to `timer`.
pub fn timer_reply_key(cmd: &TimerCommand, count: u32, exists: bool) -> (res: Option<String>)
    ensures
        opt_chars(res) == timer_reply_spec(timer_command_view(*cmd), count, exists),
{
    match cmd {
        TimerCommand::List => None,
        TimerCommand::Start(_) => if count >= TIMER_LIMIT {
            Some(owned("timer/limit"))
        } else {
            Some(owned("timer/success"))
        },
        TimerCommand::Delete(name) => match name {
            None => Some(owned("timer/help")),
            Some(_) => if exists {
                Some(owned("timer/deleted"))
            } else {
                Some(owned("timer/not_found"))
            },
        },
        TimerCommand::Help => Some(owned("timer/help")),
    }
}

/// The reply to a start says the limit was reached exactly when no timer is
/// started, and success exactly when one is.
pub proof fn lemma_start_reply_matches_start(count: u32, name: Option<Seq<char>>, exists: bool)
    ensures
        timer_reply_spec((false, true, false, name), count, exists) == Some("timer/limit"@) <==> timer_start_spec(
            count,
            name,
        ) is None,
        timer_reply_spec((false, true, false, name), count, exists) == Some("timer/success"@) <==> timer_start_spec(
            count,
            name,
        ) is Some,
        timer_start_spec(count, name) is None <==> count >= 25,
        name is Some && count < 25 ==> timer_start_spec(count, name) == name,
{
    reveal_strlit("timer/limit");
    reveal_strlit("timer/success");
    assert("timer/limit"@[6] != "timer/success"@[6]);
}

/// The reply to a delete with a name says whether the timer was found; a
/// delete without a name, and any unknown subcommand, shows the help.
pub proof fn lemma_delete_reply(count: u32, name: Seq<char>, exists: bool)
    ensures
        timer_reply_spec((false, false, true, Some(name)), count, exists) == (if exists {
            Some("timer/deleted"@)
        } else {
            Some("timer/not_found"@)
        }),
        timer_reply_spec((false, false, true, None), count, exists) == Some("timer/help"@),
        timer_reply_spec((false, false, false, None), count, exists) == Some("timer/help"@),
        timer_reply_spec((true, false, false, None), count, exists) is None,
{
}

/// The owner's number of timers after the subcommand in view `cmd`, from
/// `count` before it: a start that `timer_start_spec` names a timer for adds
/// one, a delete with a name removes the `removed` timers of that name, and
/// anything else changes nothing.
pub open spec fn timer_count_after(cmd: (bool, bool, bool, Option<Seq<char>>), count: u32, removed: nat) -> int {
    if cmd.1 {
        if timer_start_spec(count, cmd.3) is Some {
            count + 1
        } else {
            count as int
        }
    } else if cmd.2 && cmd.3 is Some {
        count - removed
    } else {
        count as int
    }
}

/// No subcommand takes an owner past `TIMER_LIMIT` timers: a start adds one
/// timer exactly when the owner has fewer than the limit, and nothing else
/// adds any.
pub proof fn lemma_timer_count_bounded(cmd: (bool, bool, bool, Option<Seq<char>>), count: u32, removed: nat)
    requires
        removed <= count,
    ensures
        count <= 25 ==> timer_count_after(cmd, count, removed) <= 25,
        timer_count_after(cmd, count, removed) == count + 1 <==> (cmd.1 && count < 25),
        0 <= timer_count_after(cmd, count, removed) <= count + 1,
{
}

// ---------------------------------------------------------------------------
// Elapsed time
// ---------------------------------------------------------------------------

/// Integer division rounded toward zero, for a positive divisor.
pub open spec fn trunc_div(a: int, b: int) -> int {
    if a >= 0 {
        a / b
    } else {
        -((-a) / b)
    }
}

/// The remainder that goes with `trunc_div`: it has the sign of `a`.
pub open spec fn trunc_rem(a: int, b: int) -> int {
    a - trunc_div(a, b) * b
}

/// num-integer's `Integer::div_rem` on `i64`: `(a / b, a % b)`, the quotient
/// rounded toward zero and the remainder with the sign of `a`. The contract is
/// stated for a positive divisor only, where the call cannot panic.
#[verifier::external_body]
fn div_rem(a: i64, b: i64) -> (res: (i64, i64))
    requires
        b > 0,
    ensures
        res.0 == trunc_div(a as int, b as int),
        res.1 == trunc_rem(a as int, b as int),
{
    num_integer::Integer::div_rem(&a, &b)
}

/// The whole seconds from a start time (`start` seconds and `start_nanos`
/// nanoseconds after the epoch) to `now` (whole seconds), rounded toward zero.
pub open spec fn elapsed_seconds(now: int, start: int, start_nanos: int) -> int {
    let d = now - start;
    if start_nanos > 0 && d >= 1 {
        d - 1
    } else {
        d
    }
}

/// `hh:mm:ss` for a number of seconds: hours, minutes and seconds each split
/// off with a division rounded toward zero, and each written with at least two
/// digits (`{:02}`).
pub open spec fn clock_text(delta: int) -> Seq<char> {
    let minutes = trunc_div(delta, 60);
    let seconds = trunc_rem(delta, 60);
    let hours = trunc_div(minutes, 60);
    let mins = trunc_rem(minutes, 60);
    pad2_text(hours) + seq![':'] + pad2_text(mins) + seq![':'] + pad2_text(seconds)
}

/// How long a timer has run, as `hh:mm:ss`, given the current time and the
/// timer's start.
pub fn time_difference(now: i64, start: i64, start_nanos: u32) -> (res: String)
    requires
        i64::MIN <= now - start <= i64::MAX,
    ensures
        res@ == clock_text(elapsed_seconds(now as int, start as int, start_nanos as int)),
{
    let d = now - start;
    let delta = if start_nanos > 0 && d >= 1 { d - 1 } else { d };
    let (minutes, seconds) = div_rem(delta, 60);
    let (hours, minutes) = div_rem(minutes, 60);
    let mut out = pad2(hours);
    out.push(':');
    append(&mut out, &pad2(minutes));
    out.push(':');
    append(&mut out, &pad2(seconds));
    assert(out@ =~= clock_text(delta as int));
    string_of(&out)
}

/// The three parts of `clock_text` add back up to the number of seconds, and
/// minutes and seconds lie within (-60, 60).
pub proof fn lemma_clock_parts(delta: int)
    ensures
        ({
            let minutes = trunc_div(delta, 60);
            let seconds = trunc_rem(delta, 60);
            let hours = trunc_div(minutes, 60);
            let mins = trunc_rem(minutes, 60);
            &&& hours * 3600 + mins * 60 + seconds == delta
            &&& -60 < mins < 60
            &&& -60 < seconds < 60
        }),
{
    let minutes = trunc_div(delta, 60);
    let seconds = trunc_rem(delta, 60);
    let hours = trunc_div(minutes, 60);
    let mins = trunc_rem(minutes, 60);
    assert(hours * 3600 == (hours * 60) * 60) by (nonlinear_arith);
}

} // verus!
