use reminder_commands::look::{look_args_ok, LookFlags, LookReply, TimeDisplayType};

#[test]
fn default_flags() {
    let f = LookFlags::default();
    assert_eq!(f.limit, u16::MAX);
    assert!(f.show_disabled);
    assert_eq!(f.channel_id, None);
    assert_eq!(f.time_display, TimeDisplayType::Relative);
}

#[test]
fn words_set_options() {
    let f = LookFlags::from_string("enabled time 10 20");
    assert_eq!(f.limit, 20);
    assert!(!f.show_disabled);
    assert_eq!(f.time_display, TimeDisplayType::Absolute);
    assert_eq!(f.channel_id, None);
}

#[test]
fn a_channel_mention_selects_the_channel() {
    let f = LookFlags::from_string("<#123>");
    assert_eq!(f.channel_id, Some(123));
    assert_eq!(f.limit, u16::MAX);
    assert_eq!(f.channel_or(7), 123);
    // The mention is read from the whole text, which here is more than one.
    let g = LookFlags::from_string("5 <#123>");
    assert_eq!(g.channel_id, None);
    assert_eq!(g.limit, 5);
    assert_eq!(g.channel_or(7), 7);
}

#[test]
fn empty_text_keeps_defaults() {
    let f = LookFlags::from_string("");
    assert_eq!(f.limit, u16::MAX);
    assert!(f.show_disabled);
    assert_eq!(f.channel_id, None);
    assert_eq!(f.enabled_filter(), "0,1");
    assert_eq!(LookFlags::from_string("enabled").enabled_filter(), "1");
}

#[test]
fn out_of_range_number_is_not_a_limit() {
    let f = LookFlags::from_string("70000");
    assert_eq!(f.limit, u16::MAX);
}

#[test]
fn display_time_is_the_timestamp() {
    let f = LookFlags::from_string("time");
    assert_eq!(f.display_time(1600000000), "1600000000");
    assert_eq!(LookFlags::default().display_time(0), "0");
}

#[test]
fn mentioned_ids_must_fit_a_u64() {
    assert!(look_args_ok("<#5>"));
    assert!(look_args_ok("enabled 10"));
    assert!(look_args_ok(""));
    assert!(!look_args_ok("<#99999999999999999999>"));
    // Other decimal digits match the mention but do not read as a number.
    assert!(!look_args_ok("<#\u{0661}\u{0662}>"));
    assert_eq!(LookFlags::from_string(" <#18446744073709551615> ").channel_id, Some(u64::MAX));
}

#[test]
fn look_channels_and_replies() {
    let f = LookFlags::from_string("<#9>");
    assert_eq!(f.look_channel(4, true), 9);
    assert_eq!(f.look_channel(4, false), 4);
    assert_eq!(LookFlags::default().look_channel(4, true), 4);
    match f.look_reply(&vec![], "at") {
        LookReply::NoReminders(k) => assert_eq!(k, "look/no_reminders"),
        LookReply::Lines(_) => panic!("expected no reminders"),
    }
    match f.look_reply(&vec![("tea".to_string(), 100), ("walk".to_string(), 7)], "at") {
        LookReply::Lines(v) => assert_eq!(v, vec!["'tea' *at* **100**".to_string(), "'walk' *at* **7**".to_string()]),
        LookReply::NoReminders(_) => panic!("expected lines"),
    }
}
