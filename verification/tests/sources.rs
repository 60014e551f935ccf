use purple_capture::models::CaptureSource;
use purple_capture::sources::{monitor_source, source_kind, source_target, window_source, SourceError, SourceKind, SourceTarget};
use purple_capture::sources::alphabetical_sources;
use purple_capture::sources::capture_size;

fn source(id: &str, kind: &str) -> CaptureSource {
    CaptureSource { id: id.to_string(), kind: kind.to_string(), name: String::new(), detail: String::new() }
}

#[test]
fn source_ids_name_monitors_and_windows() {
    assert_eq!(source_target(&source("monitor:2", "monitor")), Ok(SourceTarget::Monitor(2)));
    assert_eq!(source_target(&source("monitor:+3", "monitor")), Ok(SourceTarget::Monitor(3)));
    assert_eq!(source_target(&source("monitor:0", "monitor")), Err(SourceError::InvalidMonitorId));
    assert_eq!(source_target(&source("monitor:x", "monitor")), Err(SourceError::InvalidMonitorId));
    assert_eq!(source_target(&source("window:2", "monitor")), Err(SourceError::InvalidMonitorId));
    assert_eq!(source_target(&source("window:131074", "window")), Ok(SourceTarget::Window(131074)));
    assert_eq!(source_target(&source("window:0", "window")), Err(SourceError::InvalidWindowId));
    assert_eq!(source_target(&source("window:", "window")), Err(SourceError::InvalidWindowId));
    assert_eq!(source_target(&source("share:preview", "browser")), Err(SourceError::InvalidKind));
    assert_eq!(SourceError::InvalidKind.message(), "録画対象の種類が不正です。");
}

#[test]
fn source_kinds_are_named() {
    assert_eq!(source_kind("monitor"), Ok(SourceKind::Monitor));
    assert_eq!(source_kind("window"), Ok(SourceKind::Window));
    assert_eq!(source_kind("browser"), Ok(SourceKind::Browser));
    assert_eq!(source_kind("tab"), Err(SourceError::InvalidKind));
}

#[test]
fn monitors_are_described() {
    let named = monitor_source(1, 1920, 1080, Some("DELL U2720Q".to_string()), 60);
    assert_eq!(named.id, "monitor:1");
    assert_eq!(named.kind, "monitor");
    assert_eq!(named.name, "DELL U2720Q");
    assert_eq!(named.detail, "1920 × 1080 · 60 Hz");
    let unnamed = monitor_source(2, 2560, 1440, None, 144);
    assert_eq!(unnamed.name, "モニター 2");
    assert_eq!(unnamed.detail, "2560 × 1440 · 144 Hz");
}

#[test]
fn windows_are_described_and_untitled_ones_skipped() {
    let w = window_source(66052, "  Editor  ", Some("code.exe".to_string()), 800, -5).unwrap();
    assert_eq!(w.id, "window:66052");
    assert_eq!(w.kind, "window");
    assert_eq!(w.name, "Editor");
    assert_eq!(w.detail, "code.exe · 800 × 0");
    let anonymous = window_source(7, "Tool", None, 10, 20).unwrap();
    assert_eq!(anonymous.detail, "アプリ · 10 × 20");
    assert!(window_source(8, " \t ", None, 10, 20).is_none());
}

#[test]
fn windows_are_listed_by_name_ignoring_case() {
    let list: Vec<CaptureSource> = ["beta", "Alpha", "alpha", "Zeta", "gamma"]
        .iter()
        .enumerate()
        .map(|(i, name)| CaptureSource {
            id: format!("window:{}", i + 1),
            kind: "window".to_string(),
            name: name.to_string(),
            detail: String::new(),
        })
        .collect();
    let sorted = alphabetical_sources(&list);
    let ids: Vec<&str> = sorted.iter().map(|s| s.id.as_str()).collect();
    assert_eq!(ids, vec!["window:2", "window:3", "window:1", "window:5", "window:4"]);
}

#[test]
fn windows_are_captured_at_least_one_pixel_wide() {
    assert_eq!(capture_size(800, 600), (800, 600));
    assert_eq!(capture_size(0, -3), (1, 1));
    assert_eq!(capture_size(i32::MAX, 1), (i32::MAX as u32, 1));
}
