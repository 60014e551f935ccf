use purple_capture::models::{CaptureSource, ShareReport, ShareReportError, ShareState};
use purple_capture::share::{
    browser_candidates, browser_options, choose_browser, ensure_main, ensure_share, share_target,
    BrowserChoice, ShareError,
};
use purple_capture::share::{recording_mode_script, share_window_title};

fn report(active: bool, title: &str, surface: &str, width: u32, height: u32) -> ShareReport {
    ShareReport {
        active,
        title: title.to_string(),
        display_surface: surface.to_string(),
        width,
        height,
        has_audio: true,
    }
}

fn source(id: &str, kind: &str) -> CaptureSource {
    CaptureSource { id: id.to_string(), kind: kind.to_string(), name: "n".to_string(), detail: String::new() }
}

#[test]
fn share_reports_are_validated() {
    assert!(report(true, "Tab", "browser", 1280, 720).validate().is_ok());
    assert_eq!(report(true, &"x".repeat(513), "browser", 1, 1).validate(), Err(ShareReportError::TitleTooLong));
    assert_eq!(report(true, "Tab", "screen", 1, 1).validate(), Err(ShareReportError::InvalidSurface));
    assert_eq!(report(true, "Tab", "window", 0, 1).validate(), Err(ShareReportError::InvalidSize));
    assert_eq!(report(true, "Tab", "monitor", 1, 16385).validate(), Err(ShareReportError::InvalidSize));
    assert!(report(false, "", "nonsense", 0, 0).validate().is_ok());
    assert_eq!(ShareReportError::InvalidSize.message(), "共有映像のサイズが不正です。");
}

#[test]
fn an_accepted_report_describes_the_stream() {
    let mut state = ShareState::initial();
    let next = state.apply_report(report(true, "  ", "window", 800, 600), true).unwrap();
    assert!(next.window_open && next.active && next.has_audio);
    assert_eq!(next.title, "共有タブ");
    assert_eq!(next.display_surface, "window");
    assert_eq!((next.width, next.height), (800, 600));
    assert_eq!(state.title, next.title);
    let sources = state.capture_sources();
    assert_eq!(sources.len(), 1);
    assert_eq!(sources[0].id, "share:preview");
    assert_eq!(sources[0].kind, "browser");
    assert_eq!(sources[0].name, "共有タブ");
    assert_eq!(sources[0].detail, "ウィンドウを共有中 · 800 × 600");
    assert!(state.check_recordable().is_ok());
}

#[test]
fn an_ended_stream_resets_the_description() {
    let mut state = ShareState::initial();
    state.apply_report(report(true, "Tab", "browser", 1920, 1080), true).unwrap();
    let next = state.apply_report(report(false, "Old", "browser", 1920, 1080), true).unwrap();
    assert!(!next.active);
    assert_eq!(next.title, "共有タブ");
    assert_eq!(next.display_surface, "");
    assert_eq!((next.width, next.height, next.has_audio), (0, 0, false));
    assert!(state.capture_sources().is_empty());
    assert_eq!(state.check_recordable(), Err(ShareError::NothingShared));
}

#[test]
fn a_refused_report_changes_nothing() {
    let mut state = ShareState::initial();
    state.apply_report(report(true, "Tab", "browser", 1920, 1080), true).unwrap();
    let refused = state.apply_report(report(true, "Tab", "browser", 0, 0), false);
    assert!(matches!(refused, Err(ShareReportError::InvalidSize)));
    assert!(state.window_open && state.active);
    assert_eq!(state.title, "Tab");
}

#[test]
fn a_closed_share_window_offers_nothing() {
    let mut state = ShareState::initial();
    state.apply_report(report(true, "Tab", "browser", 640, 480), false).unwrap();
    assert!(state.capture_sources().is_empty());
    assert_eq!(state.check_recordable(), Err(ShareError::NothingShared));
    assert!(ShareState::default().title == "共有タブ" && !ShareState::default().active);
}

#[test]
fn browsers_are_offered_and_chosen() {
    let options = browser_options(false, true);
    assert_eq!(options.len(), 3);
    assert_eq!((options[0].id.as_str(), options[0].available), ("default", true));
    assert_eq!((options[1].id.as_str(), options[1].available), ("chrome", false));
    assert_eq!((options[2].id.as_str(), options[2].available), ("edge", true));
    assert_eq!(choose_browser("default"), Ok(BrowserChoice::SystemDefault));
    assert_eq!(choose_browser("chrome"), Ok(BrowserChoice::Chrome));
    assert_eq!(choose_browser("edge"), Ok(BrowserChoice::Edge));
    assert_eq!(choose_browser("firefox"), Err(ShareError::InvalidBrowser));
    assert!(browser_candidates(BrowserChoice::SystemDefault).is_empty());
    let chrome = browser_candidates(BrowserChoice::Chrome);
    assert_eq!(chrome[1].0, "ProgramFiles(x86)");
    assert_eq!(chrome[2].1, "Google\\Chrome\\Application\\chrome.exe");
}

#[test]
fn commands_are_tied_to_their_window() {
    assert!(ensure_main("main").is_ok());
    assert_eq!(ensure_main("share-preview"), Err(ShareError::NotMainWindow));
    assert!(ensure_share("share-preview").is_ok());
    assert_eq!(ensure_share("main"), Err(ShareError::NotShareWindow));
    assert_eq!(ShareError::NotMainWindow.message(), "外部Webページからアプリ機能は実行できません。");
}

#[test]
fn only_the_shared_tab_is_a_browser_source() {
    assert_eq!(share_target(&source("monitor:1", "monitor")), Ok(false));
    assert_eq!(share_target(&source("share:preview", "browser")), Ok(true));
    assert_eq!(share_target(&source("share:other", "browser")), Err(ShareError::InvalidShareSourceId));
}

#[test]
fn the_share_window_shows_what_is_shared() {
    let mut state = ShareState::initial();
    assert_eq!(share_window_title(&state), "Purple Capture - タブ共有");
    state.apply_report(report(true, "News", "browser", 10, 10), true).unwrap();
    assert_eq!(share_window_title(&state), "Purple Capture - News");
    assert_eq!(recording_mode_script(true), "window.purpleCaptureShare?.setRecordingMode?.(true)");
    assert_eq!(recording_mode_script(false), "window.purpleCaptureShare?.setRecordingMode?.(false)");
}
