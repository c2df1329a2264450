use vstd::prelude::*;
use crate::text::{append, chars_eq, chars_of, i64_text, owned, replace_first, replace_first_text, signed_text, string_of};

verus! {

/// The reply to `ping`: the time between the message being sent and being
/// read, in milliseconds.
pub fn ping_text(now_millis: i64, sent_millis: i64) -> (res: String)
    requires
        i64::MIN <= now_millis - sent_millis <= i64::MAX,
    ensures
        res@ == "Time taken to receive message: "@ + signed_text(now_millis - sent_millis) + "ms"@,
{
    let mut out = chars_of("Time taken to receive message: ");
    append(&mut out, &i64_text(now_millis - sent_millis));
    append(&mut out, &chars_of("ms"));
    string_of(&out)
}

/// The strftime pattern of `clock`: a 12-hour clock for the argument `12`, a
/// 24-hour clock otherwise.
pub open spec fn clock_pattern_spec(args: Seq<char>) -> Seq<char> {
    if args == "12"@ {
        "%I:%M:%S %p"@
    } else {
        "%H:%M:%S"@
    }
}

/// The strftime pattern of `clock` for its argument text.
pub fn clock_pattern(args: &str) -> (res: String)
    ensures
        res@ == clock_pattern_spec(args@),
{
    if chars_eq(&chars_of(args), &chars_of("12")) {
        owned("%I:%M:%S %p")
    } else {
        owned("%H:%M:%S")
    }
}

/// The time of day that chrono writes for the instant `secs` seconds after the
/// epoch, in the time zone named `zone`, with the strftime `pattern`; `None`
/// where chrono-tz knows no such zone or chrono no such instant.
pub uninterp spec fn zoned_time_text(secs: i64, zone: Seq<char>, pattern: Seq<char>) -> Option<Seq<char>>;

/// Formats an instant in a named time zone: chrono-tz parses the name into a
/// `chrono_tz::Tz` (`FromStr`), chrono builds the instant
/// (`DateTime::from_timestamp`), moves it into the zone (`with_timezone`) and
/// writes it (`format`). The contract names the result and says that it
/// depends on these three arguments alone; it states nothing of the text. It
/// admits only the two patterns of `clock`, which chrono formats without error.
#[verifier::external_body]
fn format_in_zone(secs: i64, zone: &str, pattern: &str) -> (res: Option<String>)
    requires
        pattern@ == "%I:%M:%S %p"@ || pattern@ == "%H:%M:%S"@,
    ensures
        match res {
            Some(t) => zoned_time_text(secs, zone@, pattern@) == Some(t@),
            None => zoned_time_text(secs, zone@, pattern@) is None,
        },
{
    let tz = zone.parse::<chrono_tz::Tz>().ok()?;
    let at = chrono::DateTime::from_timestamp(secs, 0)?;
    Some(at.with_timezone(&tz).format(pattern).to_string())
}

/// The reply of `clock`: the template with its first `{}` replaced by the
/// time of day.
pub fn clock_reply(template: &str, time_text: &str) -> (res: String)
    ensures
        res@ == replace_first_text(template@, "{}"@, time_text@),
{
    string_of(&replace_first(&chars_of(template), &chars_of("{}"), &chars_of(time_text)))
}

/// The reply of `clock` at the instant `now` (seconds since the epoch) in the
/// user's time zone; `None` where the zone is unknown, which the command
/// treats as a bug and panics on.
pub fn clock(template: &str, zone: &str, now: i64, args: &str) -> (res: Option<String>)
    ensures
        match zoned_time_text(now, zone@, clock_pattern_spec(args@)) {
            Some(t) => res matches Some(r) && r@ == replace_first_text(template@, "{}"@, t),
            None => res is None,
        },
{
    let pattern = clock_pattern(args);
    proof {
        reveal_strlit("12");
    }
    match format_in_zone(now, zone, pattern.as_str()) {
        Some(t) => Some(clock_reply(template, t.as_str())),
        None => None,
    }
}

} // verus!
