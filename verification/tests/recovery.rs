use purple_capture::recovery::{ends_with_text, pending_recordings, validate_name, RecoveryError, WorkingFile};
use purple_capture::recovery::is_kept_name;

fn file(name: &str, is_file: bool, size_bytes: u64) -> WorkingFile {
    WorkingFile { name: name.to_string(), is_file, size_bytes }
}

#[test]
fn only_recording_names_are_accepted() {
    assert_eq!(validate_name("PurpleCapture_2024-01-02_03-04-05.mp4"), Ok(()));
    assert_eq!(validate_name("PurpleCapture_x.mp4"), Ok(()));
    for bad in [
        "../PurpleCapture_x.mp4",
        "C:\\x.mp4",
        "PurpleCapture_x.mp4:stream",
        "PurpleCapture_x.mp4.part",
        "PurpleCapture_a/b.mp4",
        "PurpleCapture_a\\b.mp4",
        "PurpleCapture_..mp4",
        "PurpleCapture_あ.mp4",
        "Other_x.mp4",
        "PurpleCapture_x.MP4",
        "",
    ] {
        assert_eq!(validate_name(bad), Err(RecoveryError::InvalidName), "{bad}");
    }
    assert_eq!(RecoveryError::InvalidName.message(), "未保存の録画名が不正です。");
}

#[test]
fn partial_files_are_listed_but_not_ready() {
    let files = vec![
        file("PurpleCapture_a.mp4", true, 10),
        file("PurpleCapture_crash.mp4.part", true, 7),
        file("notes.txt", true, 1),
        file("PurpleCapture_dir.mp4", false, 0),
        file("PurpleCapture_c.mp4", true, 30),
    ];
    let pending = pending_recordings(&files);
    let names: Vec<&str> = pending.iter().map(|p| p.name.as_str()).collect();
    assert_eq!(names, vec!["PurpleCapture_crash.mp4.part", "PurpleCapture_c.mp4", "PurpleCapture_a.mp4"]);
    assert!(!pending[0].ready && pending[1].ready && pending[2].ready);
    assert_eq!((pending[0].size_bytes, pending[1].size_bytes, pending[2].size_bytes), (7, 30, 10));
}

#[test]
fn suffixes_are_compared_by_character() {
    assert!(ends_with_text("a.mp4", ".mp4"));
    assert!(ends_with_text(".mp4", ".mp4"));
    assert!(!ends_with_text("mp4", ".mp4"));
    assert!(ends_with_text("録画", "画"));
    assert!(ends_with_text("x", ""));
}

#[test]
fn partial_files_are_preserved_but_not_offered_as_ready() {
    let listing = vec![file("PurpleCapture_crash.mp4.part", true, b"partial".len() as u64)];
    assert!(!pending_recordings(&listing)[0].ready);
    for invalid in [
        "../PurpleCapture_x.mp4",
        "C:\\x.mp4",
        "PurpleCapture_x.mp4:stream",
        "PurpleCapture_x.mp4.part",
    ] {
        assert!(validate_name(invalid).is_err());
    }
}

#[test]
fn kept_names_are_finished_or_partial_recordings() {
    assert!(is_kept_name("a.mp4") && is_kept_name("a.mp4.part"));
    assert!(!is_kept_name("a.txt") && !is_kept_name("a.mp4.bak"));
}
