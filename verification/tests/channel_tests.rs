use reminder_commands::channel::{fill_number, nudge_outcome, offset_outcome, pause, NudgeOutcome, OffsetOutcome, PauseState};

#[test]
fn pause_toggles_without_arguments() {
    let s = PauseState { paused: false, paused_until: Some(5) };
    let a = pause(s, "", None);
    assert_eq!(a.state, PauseState { paused: true, paused_until: None });
    assert!(a.commit);
    assert_eq!(a.reply_key, "pause/paused_indefinite");
    let b = pause(a.state, "", Some(9));
    assert_eq!(b.state, PauseState { paused: false, paused_until: None });
    assert_eq!(b.reply_key, "pause/unpaused");
}

#[test]
fn pause_until_a_time() {
    let s = PauseState { paused: false, paused_until: None };
    let a = pause(s, "2h", Some(1234));
    assert_eq!(a.state, PauseState { paused: true, paused_until: Some(1234) });
    assert_eq!(a.reply_key, "pause/paused_until");
    let b = pause(s, "whenever", None);
    assert_eq!(b.state, s);
    assert!(!b.commit);
    assert_eq!(b.reply_key, "pause/invalid_time");
}

#[test]
fn offset_outcomes() {
    assert_eq!(offset_outcome("", Some(3)), OffsetOutcome::Help);
    assert_eq!(offset_outcome("1h", None), OffsetOutcome::Invalid);
    assert_eq!(offset_outcome("1h", Some(3600)), OffsetOutcome::Shift(3600));
    assert_eq!(OffsetOutcome::Help.reply_key(), "offset/help");
    assert_eq!(OffsetOutcome::Invalid.reply_key(), "offset/invalid_time");
    assert_eq!(OffsetOutcome::Shift(1).reply_key(), "offset/success");
    assert_eq!(fill_number("moved by {} seconds {}", -3600), "moved by -3600 seconds {}");
}

#[test]
fn nudge_outcomes() {
    assert_eq!(nudge_outcome("", Some(3)), NudgeOutcome::Invalid);
    assert_eq!(nudge_outcome("5s", None), NudgeOutcome::Invalid);
    assert_eq!(nudge_outcome("5s", Some(5)), NudgeOutcome::Apply(5));
    assert_eq!(nudge_outcome("x", Some(32767)), NudgeOutcome::Apply(32767));
    assert_eq!(nudge_outcome("x", Some(-32768)), NudgeOutcome::Apply(-32768));
    assert_eq!(nudge_outcome("x", Some(32768)), NudgeOutcome::Invalid);
    assert_eq!(nudge_outcome("x", Some(-32769)), NudgeOutcome::Invalid);
    assert_eq!(NudgeOutcome::Apply(1).reply_key(), "nudge/success");
    assert_eq!(NudgeOutcome::Invalid.reply_key(), "nudge/invalid_time");
}
