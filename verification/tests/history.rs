use purple_capture::history::{add_entry, newest_history_first};
use purple_capture::models::HistoryEntry;
use purple_capture::sort::{newest_first, text_before};
use purple_capture::history::listed_history;
use purple_capture::sort::alphabetical;

fn entry(name: &str, created_at: &str) -> HistoryEntry {
    HistoryEntry {
        path: format!("C:\\Videos\\{name}"),
        file_name: name.to_string(),
        target_name: "Monitor".to_string(),
        created_at: created_at.to_string(),
        duration_seconds: 1,
        size_bytes: 2,
    }
}

#[test]
fn new_entries_go_first() {
    let mut entries = vec![entry("a.mp4", "2024-01-01T00:00:00+09:00")];
    add_entry(&mut entries, entry("b.mp4", "2024-01-02T00:00:00+09:00"));
    assert_eq!(entries.len(), 2);
    assert_eq!(entries[0].file_name, "b.mp4");
    assert_eq!(entries[1].file_name, "a.mp4");
}

#[test]
fn history_is_shown_newest_first_and_stable() {
    let entries = vec![
        entry("old.mp4", "2024-01-01T00:00:00+09:00"),
        entry("new.mp4", "2024-03-01T00:00:00+09:00"),
        entry("same1.mp4", "2024-02-01T00:00:00+09:00"),
        entry("same2.mp4", "2024-02-01T00:00:00+09:00"),
    ];
    let shown = newest_history_first(&entries);
    let names: Vec<&str> = shown.iter().map(|e| e.file_name.as_str()).collect();
    assert_eq!(names, vec!["new.mp4", "same1.mp4", "same2.mp4", "old.mp4"]);
}

#[test]
fn texts_order_by_character() {
    assert!(text_before("a", "b"));
    assert!(text_before("a", "ab"));
    assert!(!text_before("ab", "ab"));
    assert!(!text_before("b", "a"));
    assert!(text_before("", "a"));
    let keys: Vec<String> = ["b", "c", "a", "c"].iter().map(|s| s.to_string()).collect();
    assert_eq!(newest_first(&keys), vec![1, 3, 0, 2]);
}

#[test]
fn listed_history_drops_missing_files() {
    let entries = vec![
        entry("a.mp4", "2024-01-01T00:00:00+09:00"),
        entry("gone.mp4", "2024-05-01T00:00:00+09:00"),
        entry("b.mp4", "2024-02-01T00:00:00+09:00"),
    ];
    let shown = listed_history(&entries, &vec![true, false, true]);
    let names: Vec<&str> = shown.iter().map(|e| e.file_name.as_str()).collect();
    assert_eq!(names, vec!["b.mp4", "a.mp4"]);
}

#[test]
fn alphabetical_order_is_ascending_and_stable() {
    let keys: Vec<String> = ["b", "a", "c", "a"].iter().map(|s| s.to_string()).collect();
    assert_eq!(alphabetical(&keys), vec![1, 3, 0, 2]);
    assert!(alphabetical(&Vec::new()).is_empty());
}

#[test]
fn a_newly_added_newest_entry_is_shown_first() {
    let mut entries = vec![
        entry("a.mp4", "2024-01-01T00:00:00+09:00"),
        entry("b.mp4", "2024-06-01T00:00:00+09:00"),
    ];
    add_entry(&mut entries, entry("new.mp4", "2024-06-01T00:00:00+09:00"));
    let shown = listed_history(&entries, &vec![true, true, true]);
    assert_eq!(shown[0].file_name, "new.mp4");
    assert_eq!(shown[1].file_name, "b.mp4");
}
