use reminder_commands::info::{clock, clock_pattern, clock_reply, ping_text};

#[test]
fn ping_reply() {
    assert_eq!(ping_text(1500, 1000), "Time taken to receive message: 500ms");
    assert_eq!(ping_text(1000, 1500), "Time taken to receive message: -500ms");
}

#[test]
fn clock_patterns() {
    assert_eq!(clock_pattern("12"), "%I:%M:%S %p");
    assert_eq!(clock_pattern(""), "%H:%M:%S");
    assert_eq!(clock_pattern("24"), "%H:%M:%S");
    assert_eq!(clock_reply("It is {} now {}", "12:00"), "It is 12:00 now {}");
}

#[test]
fn clock_in_zones() {
    assert_eq!(clock("It is {}", "UTC", 0, ""), Some("It is 00:00:00".to_string()));
    assert_eq!(clock("It is {}", "UTC", 13 * 3600 + 62, "12"), Some("It is 01:01:02 PM".to_string()));
    // London kept British Standard Time, one hour ahead, through 1970.
    assert_eq!(clock("{}", "Europe/London", 0, ""), Some("01:00:00".to_string()));
    assert_eq!(clock("{}", "Asia/Kolkata", 0, ""), Some("05:30:00".to_string()));
    assert_eq!(clock("{}", "Not/AZone", 0, ""), None);
}
