use purple_capture::models::{CaptureSource, RecordingRequest, RecordingStatus};
use purple_capture::recording::{
    bitrate, make_even, numbered_file_name, plan_recording, plan_recording_at, validate_request,
    ActiveSession, RecorderState, RecordingError,
};
use purple_capture::recording::candidate_name;
use purple_capture::recording::free_file_name;
use purple_capture::recording::add_finished;

const SECOND: u64 = 1_000_000_000;

fn request(quality: &str, fps: u32, name: &str) -> RecordingRequest {
    RecordingRequest {
        source: CaptureSource {
            id: "monitor:1".to_string(),
            kind: "monitor".to_string(),
            name: name.to_string(),
            detail: String::new(),
        },
        quality: quality.to_string(),
        fps,
        system_audio: false,
        microphone: true,
        microphone_id: None,
    }
}

fn session(started: u64) -> ActiveSession {
    ActiveSession::new(
        "window:42".to_string(),
        "Editor".to_string(),
        started,
        "w/a.mp4.part".to_string(),
        "s/a.mp4".to_string(),
        "2024-01-02T03:04:05+09:00".to_string(),
    )
}

#[test]
fn requests_are_validated() {
    assert_eq!(validate_request(&request("standard", 30, "Monitor")), Ok(()));
    assert_eq!(validate_request(&request("high", 60, "Monitor")), Ok(()));
    assert_eq!(validate_request(&request("high", 25, "Monitor")), Err(RecordingError::InvalidFps));
    assert_eq!(validate_request(&request("best", 30, "Monitor")), Err(RecordingError::InvalidQuality));
    assert_eq!(validate_request(&request("high", 30, "  ")), Err(RecordingError::InvalidTargetName));
    assert_eq!(validate_request(&request("high", 30, &"n".repeat(513))), Err(RecordingError::InvalidTargetName));
}

#[test]
fn sides_are_rounded_up_to_even() {
    assert_eq!(make_even(0), 2);
    assert_eq!(make_even(1), 3);
    assert_eq!(make_even(2), 2);
    assert_eq!(make_even(1919), 1920);
    assert_eq!(make_even(1080), 1080);
    assert_eq!(make_even(u32::MAX), u32::MAX);
}

#[test]
fn bitrates_follow_quality_and_frame_rate() {
    assert_eq!(bitrate("standard", 30), 10_000_000);
    assert_eq!(bitrate("standard", 60), 16_000_000);
    assert_eq!(bitrate("high", 30), 20_000_000);
    assert_eq!(bitrate("high", 60), 30_000_000);
}

#[test]
fn a_plan_names_files_after_the_start_time() {
    let plan = plan_recording_at(
        &request("high", 60, "Monitor"),
        false,
        Some(1 << 30),
        1919,
        1080,
        "2024-01-02_03-04-05",
        "2024-01-02T03:04:05+09:00".to_string(),
    )
    .unwrap();
    assert_eq!(plan.file_stem, "PurpleCapture_2024-01-02_03-04-05");
    assert_eq!(plan.working_file_name, "PurpleCapture_2024-01-02_03-04-05.mp4.part");
    assert_eq!(plan.final_file_name, "PurpleCapture_2024-01-02_03-04-05.mp4");
    assert_eq!(plan.created_at, "2024-01-02T03:04:05+09:00");
    assert_eq!((plan.target_width, plan.target_height), (1920, 1080));
    assert_eq!(plan.bitrate, 30_000_000);
    assert!(plan.audio_enabled);
    assert_eq!(plan.frame_ticks, 166_666);
}

#[test]
fn plans_are_refused_in_order() {
    let ok = request("standard", 30, "Monitor");
    let plan = |r: &RecordingRequest, busy: bool, space: Option<u64>, w: u32, h: u32| {
        plan_recording_at(r, busy, space, w, h, "t", String::new()).map(|_| ())
    };
    assert_eq!(plan(&request("standard", 24, "M"), true, Some(0), 1, 1), Err(RecordingError::InvalidFps));
    assert_eq!(plan(&ok, true, Some(0), 1, 1), Err(RecordingError::AlreadyRecording));
    assert_eq!(plan(&ok, false, Some(256 * 1024 * 1024 - 1), 1, 1), Err(RecordingError::InsufficientSpace));
    assert_eq!(plan(&ok, false, Some(256 * 1024 * 1024), 16384, 16384), Ok(()));
    assert_eq!(plan(&ok, false, None, 16385, 100), Err(RecordingError::TargetTooLarge));
    assert_eq!(plan(&ok, false, None, 100, 16385), Err(RecordingError::TargetTooLarge));
    assert_eq!(RecordingError::InsufficientSpace.message(), "保存先の空き容量が不足しています（最低256 MB必要です）。");
}

#[test]
fn a_plan_started_now_uses_a_file_name_time_stamp() {
    let plan = plan_recording(&request("standard", 30, "Monitor"), false, None, 640, 480).unwrap();
    let stamp = plan.file_stem.strip_prefix("PurpleCapture_").unwrap();
    assert_eq!(stamp.len(), "2024-01-02_03-04-05".len());
    assert!(stamp.chars().all(|c| c.is_ascii_digit() || c == '-' || c == '_'));
    assert_eq!(plan.final_file_name, format!("{}.mp4", plan.file_stem));
    assert!(!plan.created_at.is_empty());
    assert_eq!(plan.frame_ticks, 333_333);
    assert!(!plan_recording(&request("standard", 30, "Monitor"), true, None, 640, 480).is_ok());
}

#[test]
fn recorded_time_leaves_out_pauses() {
    let mut state = RecorderState::new();
    assert!(!state.is_recording());
    assert_eq!(state.pause(SECOND), Err(RecordingError::NotRecording));
    state.begin(session(10 * SECOND));
    assert!(state.is_recording());
    assert_eq!(state.pause(20 * SECOND), Ok(true));
    assert_eq!(state.pause(21 * SECOND), Ok(false));
    let status = state.status_at(30 * SECOND, None);
    assert_eq!(status.state, "paused");
    assert_eq!(status.elapsed_seconds, 10);
    assert_eq!(status.target_name, "Editor");
    assert_eq!(state.resume(40 * SECOND), Ok(true));
    assert_eq!(state.resume(41 * SECOND), Ok(false));
    let status = state.status_at(45 * SECOND, Some("audio failed".to_string()));
    assert_eq!(status.state, "recording");
    assert_eq!(status.elapsed_seconds, 15);
    assert_eq!(status.error.as_deref(), Some("audio failed"));
    let active = state.take().unwrap();
    assert!(!state.is_recording());
    assert_eq!(state.take().err(), Some(RecordingError::NotRecording));
    let entry = active.history_entry(50 * SECOND + 999_999_999, "s/a.mp4".to_string(), "a.mp4".to_string(), 1234);
    assert_eq!(entry.duration_seconds, 20);
    assert_eq!(entry.target_name, "Editor");
    assert_eq!(entry.created_at, "2024-01-02T03:04:05+09:00");
    assert_eq!(entry.size_bytes, 1234);
}

#[test]
fn an_idle_recorder_reports_its_last_error() {
    let mut state = RecorderState::new();
    let status = state.status_at(0, Some("ignored".to_string()));
    assert_eq!(status.state, "idle");
    assert!(status.error.is_none());
    assert_eq!(state.finish_stop(Err("disk full".to_string())), Err("disk full".to_string()));
    assert_eq!(state.status_at(0, None).error.as_deref(), Some("disk full"));
    assert_eq!(state.finish_stop(Ok(())), Ok(()));
    assert!(state.last_error.is_none());
    let idle = RecordingStatus::idle();
    assert_eq!((idle.state.as_str(), idle.elapsed_seconds, idle.target_name.as_str()), ("idle", 0, ""));
}

#[test]
fn a_closed_source_ends_only_its_own_recording() {
    let mut state = RecorderState::new();
    state.begin(session(0));
    assert!(state.take_if_source("window:7").is_none());
    assert!(state.is_recording());
    assert!(state.take_if_source("window:42").is_some());
    assert!(!state.is_recording());
    assert!(state.take_if_source("window:42").is_none());
}

#[test]
fn stops_caused_elsewhere_leave_a_message() {
    let mut state = RecorderState::new();
    assert_eq!(state.finish_source_stop("共有が終了しました。", Ok(())), Ok(()));
    assert_eq!(state.last_error.as_deref(), Some("共有が終了しました。"));
    assert_eq!(
        state.finish_source_stop("共有が終了しました。", Err("x".to_string())),
        Err("共有が終了しました。 終了処理エラー: x".to_string())
    );
    state.finish_target_closed(Ok(()));
    assert_eq!(state.last_error.as_deref(), Some("録画対象が閉じられたため、安全に録画を停止しました。"));
    state.finish_target_closed(Err("y".to_string()));
    assert_eq!(state.last_error.as_deref(), Some("録画対象の終了処理に失敗しました: y"));
}

#[test]
fn numbered_names_count_from_the_stem() {
    assert_eq!(numbered_file_name("PurpleCapture_2024", 2), "PurpleCapture_2024_2.mp4");
    assert_eq!(numbered_file_name("a", 1000), "a_1000.mp4");
}

#[test]
fn session_time_before_its_start_is_zero() {
    assert_eq!(session(10 * SECOND).elapsed_at(5 * SECOND), 0);
    assert_eq!(session(10 * SECOND).elapsed_at(13 * SECOND), 3 * SECOND);
}

#[test]
fn numbered_candidates_run_from_2_to_9999() {
    assert_eq!(candidate_name("PurpleCapture_x", 1), None);
    assert_eq!(candidate_name("PurpleCapture_x", 2).as_deref(), Some("PurpleCapture_x_2.mp4"));
    assert_eq!(candidate_name("PurpleCapture_x", 9999).as_deref(), Some("PurpleCapture_x_9999.mp4"));
    assert_eq!(candidate_name("PurpleCapture_x", 10000), None);
}

#[test]
fn the_first_free_name_is_taken() {
    assert_eq!(free_file_name("S", false, &vec![true]), "S.mp4");
    assert_eq!(free_file_name("S", true, &vec![]), "S.mp4");
    assert_eq!(free_file_name("S", true, &vec![false]), "S_2.mp4");
    assert_eq!(free_file_name("S", true, &vec![true, true, false, false]), "S_4.mp4");
    assert_eq!(free_file_name("S", true, &vec![true; 9998]), "S.mp4");
    let mut all = vec![true; 9998];
    all.push(false);
    assert_eq!(free_file_name("S", true, &all), "S.mp4");
}

#[test]
fn a_finished_recording_heads_the_history() {
    let mut history = Vec::new();
    add_finished(&mut history, &session(0), 61 * SECOND, "p".to_string(), "f".to_string(), 9);
    add_finished(&mut history, &session(10 * SECOND), 20 * SECOND, "q".to_string(), "g".to_string(), 1);
    assert_eq!(history.len(), 2);
    assert_eq!((history[0].path.as_str(), history[0].duration_seconds, history[0].size_bytes), ("q", 10, 1));
    assert_eq!((history[1].file_name.as_str(), history[1].duration_seconds), ("f", 61));
    assert_eq!(history[0].target_name, "Editor");
}

#[test]
fn only_one_recording_is_active_at_a_time() {
    let mut state = RecorderState::new();
    assert_eq!(state.try_begin(session(1)), Ok(()));
    state.finish_stop(Err("x".to_string())).unwrap_err();
    assert_eq!(state.try_begin(session(2)), Err(RecordingError::AlreadyRecording));
    assert_eq!(state.take().map(|a| a.started), Ok(1));
    assert_eq!(state.last_error.as_deref(), Some("x"));
    assert_eq!(state.try_begin(session(3)), Ok(()));
    assert_eq!(state.take().map(|a| a.started), Ok(3));
}
