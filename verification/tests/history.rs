use version_switcher::history::{record, HISTORY_LIMIT};
use version_switcher::types::HistoryEntry;

fn lines(history: &[HistoryEntry]) -> Vec<(String, String)> {
    history.iter().map(|e| (e.time.clone(), e.message.clone())).collect()
}

#[test]
fn history_limit_is_one_hundred() {
    assert_eq!(HISTORY_LIMIT, 100);
}

#[test]
fn record_puts_newest_first() {
    let mut history = Vec::new();
    record(&mut history, "10:00:00".to_string(), "first".to_string());
    record(&mut history, "10:00:01".to_string(), "second".to_string());
    assert_eq!(
        lines(&history),
        vec![
            ("10:00:01".to_string(), "second".to_string()),
            ("10:00:00".to_string(), "first".to_string()),
        ]
    );
}

#[test]
fn record_keeps_one_hundred_entries() {
    let mut history = Vec::new();
    for i in 0..100 {
        record(&mut history, "t".to_string(), format!("m{}", i));
    }
    assert_eq!(history.len(), 100);
    assert_eq!(history[0].message, "m99");
    assert_eq!(history[99].message, "m0");
    record(&mut history, "t".to_string(), "m100".to_string());
    assert_eq!(history.len(), 100);
    assert_eq!(history[0].message, "m100");
    assert_eq!(history[1].message, "m99");
    assert_eq!(history[99].message, "m1");
}

#[test]
fn record_takes_one_entry_from_a_history_that_is_too_long() {
    let mut history: Vec<HistoryEntry> = (0..150)
        .map(|i| HistoryEntry { time: "t".to_string(), message: format!("old{}", i) })
        .collect();
    record(&mut history, "t".to_string(), "new".to_string());
    assert_eq!(history.len(), 150);
    assert_eq!(history[0].message, "new");
    assert_eq!(history[1].message, "old0");
    assert_eq!(history[149].message, "old148");
}

#[test]
fn history_entry_clone_keeps_the_fields() {
    let entry = HistoryEntry { time: "12:00:00".to_string(), message: "m".to_string() };
    let copy = entry.clone();
    assert_eq!(copy.time, "12:00:00");
    assert_eq!(copy.message, "m");
}
