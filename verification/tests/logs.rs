use sparrow::ui::logs::{EventLog, LOG_RETENTION};

fn texts(log: &mut EventLog, now: u128) -> Vec<String> {
    log.list(now).into_iter().map(|e| e.0).collect()
}

#[test]
fn events_are_kept_for_five_minutes() {
    assert_eq!(LOG_RETENTION, 5 * 60 * 1_000_000_000);
    let mut log = EventLog::new();
    assert!(log.list(0).is_empty());
    log.record("first".to_string(), 10);
    log.record("second".to_string(), 20);
    assert_eq!(log.list(20), vec![("first".to_string(), 10), ("second".to_string(), 20)]);
    assert_eq!(texts(&mut log, 10 + LOG_RETENTION), vec!["first", "second"]);
    assert_eq!(texts(&mut log, 11 + LOG_RETENTION), vec!["second"]);
    assert!(texts(&mut log, 21 + LOG_RETENTION).is_empty());
}

#[test]
fn a_forgotten_event_does_not_come_back() {
    let mut log = EventLog::new();
    log.record("early".to_string(), 0);
    log.record("late".to_string(), 1 + LOG_RETENTION);
    assert_eq!(texts(&mut log, 0), vec!["late"]);
}

#[test]
fn an_event_of_the_future_is_recent() {
    let mut log = EventLog::new();
    log.record("ahead".to_string(), 1000);
    assert_eq!(texts(&mut log, 10), vec!["ahead"]);
}
