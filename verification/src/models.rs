//! The values that the recorder exchanges with its user interface.
use vstd::prelude::*;
use crate::text::{byte_len, text_byte_len, same_text};

verus! {

/// Something that can be recorded: a monitor, a window or the shared tab.
#[derive(Debug, Clone)]
pub struct CaptureSource {
    pub id: String,
    pub kind: String,
    pub name: String,
    pub detail: String,
}

/// The user's recording preferences.
#[derive(Debug, Clone)]
pub struct AppSettings {
    pub save_directory: String,
    pub quality: String,
    pub fps: u32,
    pub system_audio: bool,
    pub microphone: bool,
    pub microphone_id: Option<String>,
}

/// A request to start recording.
#[derive(Debug, Clone)]
pub struct RecordingRequest {
    pub source: CaptureSource,
    pub quality: String,
    pub fps: u32,
    pub system_audio: bool,
    pub microphone: bool,
    pub microphone_id: Option<String>,
}

/// What the recorder reports of itself.
#[derive(Debug, Clone)]
pub struct RecordingStatus {
    pub state: String,
    pub elapsed_seconds: u64,
    pub target_name: String,
    pub error: Option<String>,
}

/// A saved recording.
#[derive(Debug, Clone)]
pub struct HistoryEntry {
    pub path: String,
    pub file_name: String,
    pub target_name: String,
    pub created_at: String,
    pub duration_seconds: u64,
    pub size_bytes: u64,
}

/// A microphone that can be recorded.
#[derive(Debug, Clone)]
pub struct AudioDevice {
    pub id: String,
    pub name: String,
}

/// The state of the shared browser tab.
#[derive(Debug, Clone)]
pub struct ShareState {
    pub window_open: bool,
    pub active: bool,
    pub title: String,
    pub display_surface: String,
    pub width: u32,
    pub height: u32,
    pub has_audio: bool,
}

/// What the share preview reports of the shared stream.
#[derive(Debug, Clone)]
pub struct ShareReport {
    pub active: bool,
    pub title: String,
    pub display_surface: String,
    pub width: u32,
    pub height: u32,
    pub has_audio: bool,
}

/// Where the share preview reaches the loopback share server.
#[derive(Debug, Clone)]
pub struct ShareSessionInfo {
    pub sender_url: String,
    pub api_base: String,
    pub token: String,
}

/// A browser in which the share page can be opened.
#[derive(Debug, Clone)]
pub struct ShareBrowserOption {
    pub id: String,
    pub name: String,
    pub available: bool,
}

/// Everything the user interface shows when it starts.
#[derive(Debug, Clone)]
pub struct BootstrapData {
    pub settings: AppSettings,
    pub recording: RecordingStatus,
    pub share: ShareState,
}

/// Title shown for a shared stream that has none.
pub open spec fn default_share_title() -> Seq<char> {
    "共有タブ"@
}

/// The kinds of surface that a browser may share.
pub open spec fn is_share_surface(s: Seq<char>) -> bool {
    ||| s == "browser"@
    ||| s == "window"@
    ||| s == "monitor"@
    ||| s == "unknown"@
}

/// A side of a shared video, in pixels, that the recorder accepts.
pub open spec fn is_share_dimension(v: u32) -> bool {
    1 <= v <= 16384
}

/// Whether `s` names a kind of surface that a browser may share.
pub fn share_surface(s: &str) -> (r: bool)
    ensures
        r == is_share_surface(s@),
{
    same_text(s, "browser") || same_text(s, "window") || same_text(s, "monitor") || same_text(
        s,
        "unknown",
    )
}

impl RecordingStatus {
    /// The status of an idle recorder.
    pub fn idle() -> (r: RecordingStatus)
        ensures
            r.state@ == "idle"@,
            r.elapsed_seconds == 0,
            r.target_name@ == Seq::<char>::empty(),
            r.error is None,
    {
        RecordingStatus {
            state: String::from_str("idle"),
            elapsed_seconds: 0,
            target_name: String::new(),
            error: None,
        }
    }
}

impl Default for RecordingStatus {
    fn default() -> (r: Self)
        ensures
            r.state@ == "idle"@,
            r.elapsed_seconds == 0,
            r.target_name@ == Seq::<char>::empty(),
            r.error is None,
    {
        RecordingStatus::idle()
    }
}

impl ShareState {
    /// Nothing is shared and the share window is closed.
    pub open spec fn is_initial(&self) -> bool {
        &&& !self.window_open
        &&& !self.active
        &&& self.title@ == default_share_title()
        &&& self.display_surface@ == Seq::<char>::empty()
        &&& self.width == 0
        &&& self.height == 0
        &&& !self.has_audio
    }

    /// The state before anything is shared.
    pub fn initial() -> (r: ShareState)
        ensures
            r.is_initial(),
    {
        ShareState {
            window_open: false,
            active: false,
            title: String::from_str("共有タブ"),
            display_surface: String::new(),
            width: 0,
            height: 0,
            has_audio: false,
        }
    }
}

impl Default for ShareState {
    fn default() -> (r: Self)
        ensures
            r.is_initial(),
    {
        ShareState::initial()
    }
}

/// Why a share report is refused.
#[derive(Debug, Clone, Copy, PartialEq, Eq, Structural)]
pub enum ShareReportError {
    /// The title is longer than 512 bytes.
    TitleTooLong,
    /// An active share names an unknown kind of surface.
    InvalidSurface,
    /// An active share has a side outside 1..=16384 pixels.
    InvalidSize,
}

/// The message shown for each [`ShareReportError`].
pub open spec fn share_report_error_text(e: ShareReportError) -> Seq<char> {
    match e {
        ShareReportError::TitleTooLong => "共有対象名が長すぎます。"@,
        ShareReportError::InvalidSurface => "共有対象の種類が不正です。"@,
        ShareReportError::InvalidSize => "共有映像のサイズが不正です。"@,
    }
}

impl ShareReportError {
    pub fn message(&self) -> (r: String)
        ensures
            r@ == share_report_error_text(*self),
    {
        match self {
            ShareReportError::TitleTooLong => String::from_str("共有対象名が長すぎます。"),
            ShareReportError::InvalidSurface => String::from_str("共有対象の種類が不正です。"),
            ShareReportError::InvalidSize => String::from_str("共有映像のサイズが不正です。"),
        }
    }
}

impl ShareReport {
    /// What [`ShareReport::validate`] decides.
    pub open spec fn validation(&self) -> Result<(), ShareReportError> {
        if byte_len(self.title@) > 512 {
            Err(ShareReportError::TitleTooLong)
        } else if self.active && !is_share_surface(self.display_surface@) {
            Err(ShareReportError::InvalidSurface)
        } else if self.active && !(is_share_dimension(self.width) && is_share_dimension(
            self.height,
        )) {
            Err(ShareReportError::InvalidSize)
        } else {
            Ok(())
        }
    }

    /// Refuses reports with an overlong title and active reports with an
    /// unknown surface or an impossible size.
    pub fn validate(&self) -> (r: Result<(), ShareReportError>)
        ensures
            r == self.validation(),
    {
        if text_byte_len(self.title.as_str()) > 512 {
            return Err(ShareReportError::TitleTooLong);
        }
        if self.active {
            if !share_surface(self.display_surface.as_str()) {
                return Err(ShareReportError::InvalidSurface);
            }
            if !(1 <= self.width && self.width <= 16384 && 1 <= self.height && self.height
                <= 16384) {
                return Err(ShareReportError::InvalidSize);
            }
        }
        Ok(())
    }
}

} // verus!
