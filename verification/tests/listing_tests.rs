use reminder_commands::listing::{listing_line, look_line, selected_ids};

#[test]
fn lines() {
    assert_eq!(look_line("tea", "in", "1600000000"), "'tea' *in* **1600000000**");
    assert_eq!(listing_line(0, "tea", 42, 1600000000), "**1**: 'tea' *42* at 1600000000");
}

#[test]
fn selections() {
    let ids = vec![10, 20, 30];
    assert_eq!(selected_ids("1, 3", &ids), Some("10,30".to_string()));
    assert_eq!(selected_ids("2,2", &ids), Some("20,20".to_string()));
    assert_eq!(selected_ids("+3", &ids), Some("30".to_string()));
    assert_eq!(selected_ids("1 4", &ids), None);
    assert_eq!(selected_ids("0", &ids), None);
    assert_eq!(selected_ids("one", &ids), None);
    assert_eq!(selected_ids(" , ", &ids), Some(String::new()));
}
