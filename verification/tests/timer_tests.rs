use reminder_commands::timer::{parse_timer_command, time_difference, timer_reply_key, timer_start_name, TimerCommand};

#[test]
fn timer_subcommands() {
    assert_eq!(parse_timer_command("list"), TimerCommand::List);
    assert_eq!(parse_timer_command("list extra"), TimerCommand::List);
    assert_eq!(parse_timer_command("start"), TimerCommand::Start(None));
    assert_eq!(parse_timer_command("start tea  time"), TimerCommand::Start(Some("tea  time".to_string())));
    assert_eq!(parse_timer_command("start "), TimerCommand::Start(Some(String::new())));
    assert_eq!(parse_timer_command("delete tea"), TimerCommand::Delete(Some("tea".to_string())));
    assert_eq!(parse_timer_command("delete"), TimerCommand::Delete(None));
    assert_eq!(parse_timer_command(""), TimerCommand::Help);
    assert_eq!(parse_timer_command(" list"), TimerCommand::Help);
    assert_eq!(parse_timer_command("LIST"), TimerCommand::Help);
}

#[test]
fn timer_names() {
    assert_eq!(timer_start_name(0, None), Some("New timer #1".to_string()));
    assert_eq!(timer_start_name(24, Some("tea")), Some("tea".to_string()));
    assert_eq!(timer_start_name(25, Some("tea")), None);
    assert_eq!(timer_start_name(u32::MAX, None), None);
}

#[test]
fn elapsed_time_text() {
    assert_eq!(time_difference(3661, 0, 0), "01:01:01");
    assert_eq!(time_difference(100_000, 100_000, 0), "00:00:00");
    assert_eq!(time_difference(400_000, 40_000, 0), "100:00:00");
    assert_eq!(time_difference(0, 3661, 0), "-1:-1:-1");
    assert_eq!(time_difference(10, 5, 500_000_000), "00:00:04");
    assert_eq!(time_difference(5, 5, 500_000_000), "00:00:00");
    assert_eq!(time_difference(5, 10, 500_000_000), "00:00:-5");
}

#[test]
fn timer_replies() {
    let key = |c: &str, count: u32, exists: bool| timer_reply_key(&parse_timer_command(c), count, exists);
    assert_eq!(key("list", 3, false), None);
    assert_eq!(key("start", 24, false), Some("timer/success".to_string()));
    assert_eq!(key("start tea", 25, false), Some("timer/limit".to_string()));
    assert_eq!(key("delete tea", 2, true), Some("timer/deleted".to_string()));
    assert_eq!(key("delete tea", 2, false), Some("timer/not_found".to_string()));
    assert_eq!(key("delete", 2, true), Some("timer/help".to_string()));
    assert_eq!(key("stop", 2, true), Some("timer/help".to_string()));
}
