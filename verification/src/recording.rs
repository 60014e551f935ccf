//! Decisions of the recorder: which requests it accepts, how it sets up the
//! encoder, and how a recording session moves between recording, paused and stopped.
use vstd::prelude::*;
use crate::stamp::{LocalTime, is_local_time, stamp_text, rfc3339_start, begins_with, local_now, stamp, law_stamp_layout};
use crate::recovery::{is_recording_name, is_name_char};
use crate::models::{RecordingRequest, RecordingStatus, HistoryEntry};
use crate::text::{is_blank, blank, byte_len, text_byte_len, same_text};
use crate::clock::{sat_add, sat_sub};

verus! {

/// Least free space, in bytes, that a recording needs on its destination.
pub const MIN_FREE_BYTES: u64 = 268435456;

/// Largest side, in pixels, of a recorded video.
pub const MAX_VIDEO_SIDE: u32 = 16384;

/// Encoder ticks (100 ns) per second.
pub const TICKS_PER_SECOND: i64 = 10000000;

/// Why the recorder refuses a request.
#[derive(Debug, Clone, Copy, PartialEq, Eq, Structural)]
pub enum RecordingError {
    InvalidFps,
    InvalidQuality,
    InvalidTargetName,
    AlreadyRecording,
    InsufficientSpace,
    TargetTooLarge,
    NotRecording,
}

/// The message shown for each [`RecordingError`].
pub open spec fn recording_error_text(e: RecordingError) -> Seq<char> {
    match e {
        RecordingError::InvalidFps => "FPSは30または60を指定してください。"@,
        RecordingError::InvalidQuality => "画質の指定が不正です。"@,
        RecordingError::InvalidTargetName => "録画対象名が不正です。"@,
        RecordingError::AlreadyRecording => "すでに録画中です。"@,
        RecordingError::InsufficientSpace => "保存先の空き容量が不足しています（最低256 MB必要です）。"@,
        RecordingError::TargetTooLarge => "録画対象のサイズが大きすぎます。"@,
        RecordingError::NotRecording => "録画中ではありません。"@,
    }
}

impl RecordingError {
    pub fn message(&self) -> (r: String)
        ensures
            r@ == recording_error_text(*self),
    {
        match self {
            RecordingError::InvalidFps => String::from_str("FPSは30または60を指定してください。"),
            RecordingError::InvalidQuality => String::from_str("画質の指定が不正です。"),
            RecordingError::InvalidTargetName => String::from_str("録画対象名が不正です。"),
            RecordingError::AlreadyRecording => String::from_str("すでに録画中です。"),
            RecordingError::InsufficientSpace => String::from_str(
                "保存先の空き容量が不足しています（最低256 MB必要です）。",
            ),
            RecordingError::TargetTooLarge => String::from_str("録画対象のサイズが大きすぎます。"),
            RecordingError::NotRecording => String::from_str("録画中ではありません。"),
        }
    }
}

/// A frame rate that the recorder offers.
pub open spec fn is_frame_rate(fps: u32) -> bool {
    fps == 30 || fps == 60
}

/// A quality setting that the recorder offers.
pub open spec fn is_quality(q: Seq<char>) -> bool {
    q == "standard"@ || q == "high"@
}

pub fn quality_name(q: &str) -> (r: bool)
    ensures
        r == is_quality(q@),
{
    same_text(q, "standard") || same_text(q, "high")
}

/// What [`validate_request`] decides.
pub open spec fn request_validation(r: RecordingRequest) -> Result<(), RecordingError> {
    if !is_frame_rate(r.fps) {
        Err(RecordingError::InvalidFps)
    } else if !is_quality(r.quality@) {
        Err(RecordingError::InvalidQuality)
    } else if is_blank(r.source.name@) || byte_len(r.source.name@) > 512 {
        Err(RecordingError::InvalidTargetName)
    } else {
        Ok(())
    }
}

/// Accepts 30 or 60 FPS, standard or high quality, and a target name that is
/// not blank and at most 512 bytes long.
pub fn validate_request(request: &RecordingRequest) -> (r: Result<(), RecordingError>)
    ensures
        r == request_validation(*request),
{
    if !(request.fps == 30 || request.fps == 60) {
        return Err(RecordingError::InvalidFps);
    }
    if !quality_name(request.quality.as_str()) {
        return Err(RecordingError::InvalidQuality);
    }
    if blank(request.source.name.as_str()) || text_byte_len(request.source.name.as_str()) > 512 {
        return Err(RecordingError::InvalidTargetName);
    }
    Ok(())
}

/// `max(value, 2) + value % 2`, limited to `u32::MAX`.
pub open spec fn even_size(value: u32) -> u32 {
    let base = if value < 2 { 2 } else { value };
    if base + value % 2 > u32::MAX {
        u32::MAX
    } else {
        (base + value % 2) as u32
    }
}

/// Rounds a video side up to an even size of at least two pixels.
pub fn make_even(value: u32) -> (r: u32)
    ensures
        r == even_size(value),
{
    let base = if value < 2 { 2 } else { value };
    base.saturating_add(value % 2)
}

/// Outside the sizes one and `u32::MAX`, the rounded side is even, at least
/// two, and at most one more than the side.
pub proof fn law_even_sizes(value: u32)
    requires
        value != 1,
        value != u32::MAX,
    ensures
        even_size(value) % 2 == 0,
        even_size(value) >= 2,
        even_size(value) >= value,
        even_size(value) <= value + 2,
{
}

/// Bits per second of the video track.
pub open spec fn bitrate_of(quality: Seq<char>, fps: u32) -> u32 {
    if quality == "high"@ {
        if fps == 60 { 30000000 } else { 20000000 }
    } else {
        if fps == 60 { 16000000 } else { 10000000 }
    }
}

pub fn bitrate(quality: &str, fps: u32) -> (r: u32)
    ensures
        r == bitrate_of(quality@, fps),
{
    if same_text(quality, "high") {
        if fps == 60 { 30000000 } else { 20000000 }
    } else {
        if fps == 60 { 16000000 } else { 10000000 }
    }
}

/// How the recorder sets up one recording.
#[derive(Debug, Clone)]
pub struct RecordingPlan {
    /// `PurpleCapture_` and the local start time.
    pub file_stem: String,
    /// Name of the file written while recording, in the working folder.
    pub working_file_name: String,
    /// Name of the finished file, in the save folder.
    pub final_file_name: String,
    /// Start time in RFC 3339, for the history.
    pub created_at: String,
    pub target_width: u32,
    pub target_height: u32,
    pub bitrate: u32,
    pub audio_enabled: bool,
    /// Encoder ticks between two frames.
    pub frame_ticks: i64,
}

/// Whether `request` can be recorded, or why not, when the recorder is (or is
/// not) `recording`, the destination has `available_space` bytes free (`None`
/// when unknown) and the source is `width` by `height` pixels.
pub open spec fn plan_check(
    request: RecordingRequest,
    recording: bool,
    available_space: Option<u64>,
    width: u32,
    height: u32,
) -> Result<(), RecordingError> {
    let space = match available_space {
        Some(s) => s,
        None => u64::MAX,
    };
    if request_validation(request) is Err {
        request_validation(request)
    } else if recording {
        Err(RecordingError::AlreadyRecording)
    } else if space < MIN_FREE_BYTES {
        Err(RecordingError::InsufficientSpace)
    } else if even_size(width) > MAX_VIDEO_SIDE || even_size(height) > MAX_VIDEO_SIDE {
        Err(RecordingError::TargetTooLarge)
    } else {
        Ok(())
    }
}

/// The plan describes a recording of `request` of a `width` by `height` source started at `time_text`.
pub open spec fn plan_matches(
    plan: RecordingPlan,
    request: RecordingRequest,
    width: u32,
    height: u32,
    time_text: Seq<char>,
    created_at: Seq<char>,
) -> bool {
    &&& plan.file_stem@ == "PurpleCapture_"@ + time_text
    &&& plan.working_file_name@ == plan.file_stem@ + ".mp4.part"@
    &&& plan.final_file_name@ == plan.file_stem@ + ".mp4"@
    &&& plan.created_at@ == created_at
    &&& plan.target_width == even_size(width)
    &&& plan.target_height == even_size(height)
    &&& plan.bitrate == bitrate_of(request.quality@, request.fps)
    &&& plan.audio_enabled == (request.system_audio || request.microphone)
    &&& plan.frame_ticks == (TICKS_PER_SECOND as int) / (request.fps as int)
}

/// Plans a recording for the given local start time.
pub fn plan_recording_at(
    request: &RecordingRequest,
    recording: bool,
    available_space: Option<u64>,
    width: u32,
    height: u32,
    time_text: &str,
    created_at: String,
) -> (r: Result<RecordingPlan, RecordingError>)
    ensures
        match r {
            Ok(plan) => plan_check(*request, recording, available_space, width, height) is Ok
                && plan_matches(plan, *request, width, height, time_text@, created_at@),
            Err(e) => plan_check(*request, recording, available_space, width, height) == Err::<(), RecordingError>(e),
        },
{
    match validate_request(request) {
        Err(e) => {
            return Err(e);
        },
        Ok(()) => {},
    }
    if recording {
        return Err(RecordingError::AlreadyRecording);
    }
    let space = match available_space {
        Some(s) => s,
        None => u64::MAX,
    };
    if space < MIN_FREE_BYTES {
        return Err(RecordingError::InsufficientSpace);
    }
    let target_width = make_even(width);
    let target_height = make_even(height);
    if target_width > MAX_VIDEO_SIDE || target_height > MAX_VIDEO_SIDE {
        return Err(RecordingError::TargetTooLarge);
    }
    let mut file_stem = String::from_str("PurpleCapture_");
    file_stem.append(time_text);
    let working_file_name = file_stem.clone().concat(".mp4.part");
    let final_file_name = file_stem.clone().concat(".mp4");
    let rate = bitrate(request.quality.as_str(), request.fps);
    let frame_ticks = TICKS_PER_SECOND / (request.fps as i64);
    Ok(
        RecordingPlan {
            file_stem,
            working_file_name,
            final_file_name,
            created_at,
            target_width,
            target_height,
            bitrate: rate,
            audio_enabled: request.system_audio || request.microphone,
            frame_ticks,
        },
    )
}

/// Plans a recording that starts now, by the local clock: the file name
/// carries the local start time as `YYYY-MM-DD_HH-MM-SS`, and the plan keeps
/// the same instant in RFC 3339.
pub fn plan_recording(
    request: &RecordingRequest,
    recording: bool,
    available_space: Option<u64>,
    width: u32,
    height: u32,
) -> (r: Result<RecordingPlan, RecordingError>)
    ensures
        match r {
            Ok(plan) => plan_check(*request, recording, available_space, width, height) is Ok
                && exists|t: LocalTime|
                #![trigger plan_matches(plan, *request, width, height, stamp_text(t), t.rfc3339@)]
                is_local_time(t) && begins_with(t.rfc3339@, rfc3339_start(t)) && plan_matches(
                    plan,
                    *request,
                    width,
                    height,
                    stamp_text(t),
                    t.rfc3339@,
                ),
            Err(e) => plan_check(*request, recording, available_space, width, height) == Err::<
                (),
                RecordingError,
            >(e),
        },
{
    let t = local_now();
    let text = stamp(&t);
    let ghost read = t;
    let r = plan_recording_at(request, recording, available_space, width, height, text.as_str(), t.rfc3339);
    proof {
        if r is Ok {
            assert(plan_matches(r->Ok_0, *request, width, height, stamp_text(read), read.rfc3339@));
        }
    }
    r
}

/// From year 0 to 9999, the name of a finished recording is one that an
/// unsaved recording may be saved again under.
pub proof fn law_recording_names_can_be_saved_again(t: LocalTime)
    requires
        is_local_time(t),
        0 <= t.year <= 9999,
    ensures
        is_recording_name("PurpleCapture_"@ + stamp_text(t) + ".mp4"@),
{
    law_stamp_layout(t);
    reveal_strlit("PurpleCapture_");
    reveal_strlit(".mp4");
    let p = "PurpleCapture_"@;
    let st = stamp_text(t);
    let e = ".mp4"@;
    let name = p + st + e;
    assert(name.subrange(0, 14) =~= p);
    assert(name.subrange(name.len() - 4, name.len() as int) =~= e);
    assert forall|i: int| 0 <= i < name.len() implies is_name_char(#[trigger] name[i]) by {
        if i < 14 {
            assert(name[i] == p[i]);
        } else if i < 33 {
            assert(name[i] == st[i - 14]);
        } else {
            assert(name[i] == e[i - 33]);
        }
    }
    assert forall|i: int| 0 <= i && i + 1 < name.len() implies !(#[trigger] name[i] == '.' && name[i
        + 1] == '.') by {
        if i < 14 {
            assert(name[i] == p[i]);
        } else if i < 33 {
            assert(name[i] == st[i - 14]);
        } else {
            assert(name[i + 1] == e[i + 1 - 33]);
        }
    }
}

/// A recording in progress, as the recorder tracks it. Instants are nanoseconds
/// of the recorder's monotonic time.
#[derive(Debug, Clone)]
pub struct ActiveSession {
    pub source_id: String,
    pub target_name: String,
    pub started: u64,
    pub pause_started: Option<u64>,
    pub paused_duration: u64,
    pub working_path: String,
    pub final_path: String,
    pub created_at: String,
}

/// Recorded nanoseconds of `s` at `now`: time since the start, less the time paused.
pub open spec fn session_elapsed(s: ActiveSession, now: u64) -> u64 {
    let current = match s.pause_started {
        Some(p) => sat_sub(now, p),
        None => 0,
    };
    sat_sub(sat_sub(now, s.started), sat_add(s.paused_duration, current))
}

impl ActiveSession {
    /// A session started at `started`, not paused.
    pub fn new(
        source_id: String,
        target_name: String,
        started: u64,
        working_path: String,
        final_path: String,
        created_at: String,
    ) -> (s: ActiveSession)
        ensures
            s.source_id == source_id,
            s.target_name == target_name,
            s.started == started,
            s.pause_started is None,
            s.paused_duration == 0,
            s.working_path == working_path,
            s.final_path == final_path,
            s.created_at == created_at,
    {
        ActiveSession {
            source_id,
            target_name,
            started,
            pause_started: None,
            paused_duration: 0,
            working_path,
            final_path,
            created_at,
        }
    }

    /// Recorded nanoseconds at `now`.
    pub fn elapsed_at(&self, now: u64) -> (r: u64)
        ensures
            r == session_elapsed(*self, now),
    {
        let current = match self.pause_started {
            Some(p) => now.saturating_sub(p),
            None => 0,
        };
        now.saturating_sub(self.started).saturating_sub(self.paused_duration.saturating_add(current))
    }

    /// The history entry of this recording, saved as `file_name` at `path` with
    /// `size_bytes` bytes, when it ends at `now`.
    pub fn history_entry(&self, now: u64, path: String, file_name: String, size_bytes: u64) -> (e: HistoryEntry)
        ensures
            e.path == path,
            e.file_name == file_name,
            e.target_name == self.target_name,
            e.created_at == self.created_at,
            e.duration_seconds == session_elapsed(*self, now) / 1000000000,
            e.size_bytes == size_bytes,
    {
        HistoryEntry {
            path,
            file_name,
            target_name: self.target_name.clone(),
            created_at: self.created_at.clone(),
            duration_seconds: self.elapsed_at(now) / 1000000000,
            size_bytes,
        }
    }
}

/// What the recorder holds between requests: the recording in progress, if
/// any, and the error to show once it has ended.
pub struct RecorderState {
    pub active: Option<ActiveSession>,
    pub last_error: Option<String>,
}

/// The status that a recorder in state `s` reports at `now`, given the audio
/// pipeline's error.
pub open spec fn status_matches(
    st: RecordingStatus,
    active: Option<ActiveSession>,
    last_error: Option<String>,
    now: u64,
    audio_error: Option<String>,
) -> bool {
    match active {
        None => {
            &&& st.state@ == "idle"@
            &&& st.elapsed_seconds == 0
            &&& st.target_name@ == Seq::<char>::empty()
            &&& st.error == last_error
        },
        Some(a) => {
            &&& st.state@ == (if a.pause_started is Some { "paused"@ } else { "recording"@ })
            &&& st.elapsed_seconds == session_elapsed(a, now) / 1000000000
            &&& st.target_name == a.target_name
            &&& st.error == audio_error
        },
    }
}

impl RecorderState {
    pub fn new() -> (r: RecorderState)
        ensures
            r.active is None,
            r.last_error is None,
    {
        RecorderState { active: None, last_error: None }
    }

    pub fn is_recording(&self) -> (r: bool)
        ensures
            r == self.active is Some,
    {
        self.active.is_some()
    }

    /// Records that `session` has started.
    pub fn begin(&mut self, session: ActiveSession)
        ensures
            final(self).active == Some(session),
            final(self).last_error == old(self).last_error,
    {
        self.active = Some(session);
    }

    /// Starts `session` unless a recording is running: only one recording can
    /// be active, and a later start is refused, changing nothing, until it stops.
    pub fn try_begin(&mut self, session: ActiveSession) -> (r: Result<(), RecordingError>)
        ensures
            old(self).active is Some ==> r == Err::<(), RecordingError>(RecordingError::AlreadyRecording)
                && *final(self) == *old(self),
            old(self).active is None ==> r is Ok && final(self).active == Some(session)
                && final(self).last_error == old(self).last_error,
    {
        if self.active.is_some() {
            Err(RecordingError::AlreadyRecording)
        } else {
            self.active = Some(session);
            Ok(())
        }
    }

    /// Pauses the recording at `now`; reports whether it was running until now.
    pub fn pause(&mut self, now: u64) -> (r: Result<bool, RecordingError>)
        ensures
            old(self).active is None ==> r == Err::<bool, RecordingError>(RecordingError::NotRecording)
                && *final(self) == *old(self),
            old(self).active matches Some(a) ==> {
                &&& r == Ok::<bool, RecordingError>(a.pause_started is None)
                &&& final(self).last_error == old(self).last_error
                &&& final(self).active == Some(
                    if a.pause_started is None {
                        ActiveSession { pause_started: Some(now), ..a }
                    } else {
                        a
                    },
                )
            },
    {
        match &mut self.active {
            None => Err(RecordingError::NotRecording),
            Some(a) => {
                if a.pause_started.is_none() {
                    a.pause_started = Some(now);
                    Ok(true)
                } else {
                    Ok(false)
                }
            },
        }
    }

    /// Resumes the recording at `now`, adding the pause to the paused time;
    /// reports whether it was paused until now.
    pub fn resume(&mut self, now: u64) -> (r: Result<bool, RecordingError>)
        ensures
            old(self).active is None ==> r == Err::<bool, RecordingError>(RecordingError::NotRecording)
                && *final(self) == *old(self),
            old(self).active matches Some(a) ==> {
                &&& r == Ok::<bool, RecordingError>(a.pause_started is Some)
                &&& final(self).last_error == old(self).last_error
                &&& final(self).active == Some(
                    match a.pause_started {
                        Some(p) => ActiveSession {
                            pause_started: None,
                            paused_duration: sat_add(a.paused_duration, sat_sub(now, p)),
                            ..a
                        },
                        None => a,
                    },
                )
            },
    {
        match &mut self.active {
            None => Err(RecordingError::NotRecording),
            Some(a) => match a.pause_started {
                Some(p) => {
                    a.pause_started = None;
                    a.paused_duration = a.paused_duration.saturating_add(now.saturating_sub(p));
                    Ok(true)
                },
                None => Ok(false),
            },
        }
    }

    /// Takes the recording in progress so that it can be finished.
    pub fn take(&mut self) -> (r: Result<ActiveSession, RecordingError>)
        ensures
            old(self).active is None ==> r == Err::<ActiveSession, RecordingError>(RecordingError::NotRecording),
            old(self).active matches Some(a) ==> r == Ok::<ActiveSession, RecordingError>(a),
            final(self).active is None,
            final(self).last_error == old(self).last_error,
    {
        match self.active.take() {
            Some(a) => Ok(a),
            None => Err(RecordingError::NotRecording),
        }
    }

    /// Takes the recording in progress only when it records the source `source_id`.
    pub fn take_if_source(&mut self, source_id: &str) -> (r: Option<ActiveSession>)
        ensures
            match old(self).active {
                Some(a) => if a.source_id@ == source_id@ {
                    r == Some(a) && final(self).active is None
                } else {
                    r is None && final(self).active == old(self).active
                },
                None => r is None && final(self).active is None,
            },
            final(self).last_error == old(self).last_error,
    {
        let matches = match &self.active {
            Some(a) => same_text(a.source_id.as_str(), source_id),
            None => false,
        };
        if matches {
            self.active.take()
        } else {
            None
        }
    }

    /// Records the outcome of a stop that the user asked for.
    pub fn finish_stop(&mut self, outcome: Result<(), String>) -> (r: Result<(), String>)
        ensures
            r == outcome,
            final(self).active == old(self).active,
            final(self).last_error == match outcome {
                Ok(()) => None,
                Err(m) => Some(m),
            },
    {
        match &outcome {
            Ok(()) => {
                self.last_error = None;
            },
            Err(m) => {
                self.last_error = Some(m.clone());
            },
        }
        outcome
    }

    /// Records the outcome of a stop caused by the end of the source: on success
    /// `message` is kept to be shown; on failure the message and the cause.
    pub fn finish_source_stop(&mut self, message: &str, outcome: Result<(), String>) -> (r: Result<(), String>)
        ensures
            final(self).active == old(self).active,
            outcome is Ok ==> (r is Ok && (final(self).last_error matches Some(e) && e@ == message@)),
            outcome matches Err(c) ==> (r matches Err(d) && d@ == message@ + " 終了処理エラー: "@ + c@
                && final(self).last_error == Some(d)),
    {
        match outcome {
            Ok(()) => {
                self.last_error = Some(String::from_str(message));
                Ok(())
            },
            Err(cause) => {
                let mut detail = String::from_str(message);
                detail.append(" 終了処理エラー: ");
                detail.append(cause.as_str());
                self.last_error = Some(detail.clone());
                Err(detail)
            },
        }
    }

    /// Records the outcome of a stop caused by the recorded window or monitor going away.
    pub fn finish_target_closed(&mut self, outcome: Result<(), String>)
        ensures
            final(self).active == old(self).active,
            outcome is Ok ==> (final(self).last_error matches Some(e) && e@
                == "録画対象が閉じられたため、安全に録画を停止しました。"@),
            outcome matches Err(c) ==> (final(self).last_error matches Some(e) && e@
                == "録画対象の終了処理に失敗しました: "@ + c@),
    {
        match outcome {
            Ok(()) => {
                self.last_error = Some(String::from_str("録画対象が閉じられたため、安全に録画を停止しました。"));
            },
            Err(cause) => {
                let mut detail = String::from_str("録画対象の終了処理に失敗しました: ");
                detail.append(cause.as_str());
                self.last_error = Some(detail);
            },
        }
    }

    /// The status at `now`, given the audio pipeline's error.
    pub fn status_at(&self, now: u64, audio_error: Option<String>) -> (st: RecordingStatus)
        ensures
            status_matches(st, self.active, self.last_error, now, audio_error),
    {
        match &self.active {
            None => {
                let idle = RecordingStatus::idle();
                RecordingStatus { error: self.last_error.clone(), ..idle }
            },
            Some(a) => {
                let state = if a.pause_started.is_some() {
                    String::from_str("paused")
                } else {
                    String::from_str("recording")
                };
                RecordingStatus {
                    state,
                    elapsed_seconds: a.elapsed_at(now) / 1000000000,
                    target_name: a.target_name.clone(),
                    error: audio_error,
                }
            },
        }
    }
}

/// A pause from `p` to `r` is left out of the recorded time, and the recorded
/// time stands still while paused.
pub proof fn law_session_pause_is_excluded(a: ActiveSession, p: u64, r: u64, now: u64)
    requires
        a.pause_started is None,
        a.paused_duration == 0,
        a.started <= p <= r <= now,
    ensures
        ({
            let paused = ActiveSession { pause_started: Some(p), ..a };
            let resumed = ActiveSession { pause_started: None, paused_duration: sat_add(0, sat_sub(r, p)), ..a };
            &&& session_elapsed(paused, now) == p - a.started
            &&& session_elapsed(resumed, now) == (now - a.started) - (r - p)
        }),
{
}

/// The name tried for the `index`-th recording of the same second: `stem_index.mp4`.
pub fn numbered_file_name(stem: &str, index: u64) -> (r: String)
    ensures
        r@ == stem@ + "_"@ + crate::text::decimal_text(index as nat) + ".mp4"@,
{
    let mut s = String::from_str(stem);
    s.append("_");
    let n = crate::text::decimal(index);
    s.append(n.as_str());
    s.append(".mp4");
    s
}

/// The first and one past the last number tried for a second recording of the same second.
pub const FIRST_NUMBERED: u64 = 2;
pub const END_NUMBERED: u64 = 10000;

/// The `attempt`-th name tried when `stem.mp4` is taken: `stem_2.mp4` up to
/// `stem_9999.mp4`, and nothing after that (the recorder then keeps the
/// plain name).
pub fn candidate_name(stem: &str, attempt: u64) -> (r: Option<String>)
    ensures
        FIRST_NUMBERED <= attempt < END_NUMBERED ==> (r matches Some(n) && n@ == stem@ + "_"@
            + crate::text::decimal_text(attempt as nat) + ".mp4"@),
        !(FIRST_NUMBERED <= attempt < END_NUMBERED) ==> r is None,
{
    if FIRST_NUMBERED <= attempt && attempt < END_NUMBERED {
        Some(numbered_file_name(stem, attempt))
    } else {
        None
    }
}

/// Every name tried is new: two attempts never give the same name, and none
/// gives the plain name `stem.mp4`.
pub proof fn law_candidate_names_differ(stem: Seq<char>, a: nat, b: nat)
    requires
        a != b,
    ensures
        stem + "_"@ + crate::text::decimal_text(a) + ".mp4"@ != stem + "_"@ + crate::text::decimal_text(b)
            + ".mp4"@,
        stem + "_"@ + crate::text::decimal_text(a) + ".mp4"@ != stem + ".mp4"@,
{
    let da = crate::text::decimal_text(a);
    let db = crate::text::decimal_text(b);
    let na = stem + "_"@ + da + ".mp4"@;
    let nb = stem + "_"@ + db + ".mp4"@;
    reveal_strlit("_");
    reveal_strlit(".mp4");
    crate::text::lemma_decimal_nonempty(a);
    if na == nb {
        assert(na.len() == nb.len());
        assert(da.len() == db.len());
        let s: int = stem.len() as int + 1;
        assert(na.subrange(s, s + da.len()) =~= da);
        assert(nb.subrange(s, s + db.len()) =~= db);
        crate::text::lemma_decimal_injective(a, b);
    }
    assert(na.len() > (stem + ".mp4"@).len());
}

/// The least `k` such that `taken[k]` is false and `stem_(k + 2).mp4` is a name
/// that is tried, if there is one.
pub open spec fn least_free(taken: Seq<bool>, k: int) -> bool {
    &&& 0 <= k < taken.len()
    &&& k + FIRST_NUMBERED < END_NUMBERED
    &&& !taken[k]
    &&& forall|j: int| 0 <= j < k ==> #[trigger] taken[j]
}

/// The file name that a new recording takes: `stem.mp4` when it is free;
/// otherwise the first free `stem_N.mp4` with `N` from 2 to 9999, where
/// `taken[k]` tells whether `stem_(k + 2).mp4` exists; and `stem.mp4` again
/// when none of those is free.
pub fn free_file_name(stem: &str, plain_taken: bool, taken: &Vec<bool>) -> (r: String)
    ensures
        !plain_taken ==> r@ == stem@ + ".mp4"@,
        plain_taken ==> forall|k: int| #[trigger] least_free(taken@, k) ==> r@ == stem@ + "_"@
            + crate::text::decimal_text((k + FIRST_NUMBERED) as nat) + ".mp4"@,
        plain_taken && (forall|k: int| !#[trigger] least_free(taken@, k)) ==> r@ == stem@ + ".mp4"@,
{
    let plain = String::from_str(stem).concat(".mp4");
    if !plain_taken {
        return plain;
    }
    let mut k: usize = 0;
    while k < taken.len() && (k as u64) + FIRST_NUMBERED < END_NUMBERED
        invariant
            plain_taken,
            plain@ == stem@ + ".mp4"@,
            k <= taken@.len(),
            k + FIRST_NUMBERED <= END_NUMBERED,
            forall|j: int| 0 <= j < k ==> #[trigger] taken@[j],
        decreases taken@.len() - k,
    {
        if !taken[k] {
            let attempt = (k as u64) + FIRST_NUMBERED;
            proof {
                assert(least_free(taken@, k as int));
                assert forall|m: int| #[trigger] least_free(taken@, m) implies m == k by {
                    if m < k {
                        assert(taken@[m]);
                    } else if m > k {
                        assert(taken@[k as int]);
                    }
                }
            }
            return numbered_file_name(stem, attempt);
        }
        k = k + 1;
    }
    proof {
        assert forall|m: int| !#[trigger] least_free(taken@, m) by {
            if 0 <= m < k {
                assert(taken@[m]);
            }
        }
    }
    plain
}

/// Puts the entry of the finished recording `session`, saved as `file_name` at
/// `path` with `size_bytes` bytes and ended at `ended`, at the front of the history.
pub fn add_finished(
    history: &mut Vec<HistoryEntry>,
    session: &ActiveSession,
    ended: u64,
    path: String,
    file_name: String,
    size_bytes: u64,
)
    ensures
        final(history)@.len() == old(history)@.len() + 1,
        final(history)@.skip(1) == old(history)@,
        final(history)@[0].path == path,
        final(history)@[0].file_name == file_name,
        final(history)@[0].target_name == session.target_name,
        final(history)@[0].created_at == session.created_at,
        final(history)@[0].duration_seconds == session_elapsed(*session, ended) / 1000000000,
        final(history)@[0].size_bytes == size_bytes,
{
    let entry = session.history_entry(ended, path, file_name, size_bytes);
    crate::history::add_entry(history, entry);
    assert(history@.skip(1) =~= old(history)@);
}

/// A recording is refused when the frame rate is not 30 or 60, the quality is
/// not standard or high, the target name is blank or longer than 512 bytes, a
/// recording is already running, less than 256 MiB is free where it is saved,
/// or a side rounded up to even is larger than 16384 pixels; otherwise it is planned.
pub proof fn law_recording_refusals(
    request: RecordingRequest,
    recording: bool,
    available_space: Option<u64>,
    width: u32,
    height: u32,
)
    ensures
        plan_check(request, recording, available_space, width, height) is Err <==> {
            ||| !(request.fps == 30 || request.fps == 60)
            ||| !(request.quality@ == "standard"@ || request.quality@ == "high"@)
            ||| is_blank(request.source.name@)
            ||| byte_len(request.source.name@) > 512
            ||| recording
            ||| (available_space matches Some(free) && free < 268435456)
            ||| even_size(width) > 16384
            ||| even_size(height) > 16384
        },
        recording && request_validation(request) is Ok ==> plan_check(
            request,
            recording,
            available_space,
            width,
            height,
        ) == Err::<(), RecordingError>(RecordingError::AlreadyRecording),
{
}

/// The recorded time of a session is the time since its start less all the
/// time paused: the pauses already ended and, while paused, the pause going on.
pub proof fn law_session_time_leaves_out_every_pause(s: ActiveSession, now: u64)
    requires
        s.started <= now,
        s.pause_started matches Some(p) ==> p <= now,
        s.paused_duration + (match s.pause_started { Some(p) => now - p, None => 0 }) <= u64::MAX,
    ensures
        ({
            let paused: int = s.paused_duration + (match s.pause_started { Some(p) => now - p, None => 0 });
            session_elapsed(s, now) == if now - s.started >= paused { now - s.started - paused } else { 0 }
        }),
{
}

} // verus!
