//! The rules that the recording preferences must meet.
use vstd::prelude::*;
use crate::models::AppSettings;
use crate::recording::{is_frame_rate, is_quality, quality_name};
use crate::text::{is_blank, blank, byte_len, text_byte_len};

verus! {

/// Why preferences are refused.
#[derive(Debug, Clone, Copy, PartialEq, Eq, Structural)]
pub enum SettingsError {
    InvalidFps,
    InvalidQuality,
    InvalidSaveDirectory,
    InvalidMicrophoneId,
}

/// The message shown for each [`SettingsError`].
pub open spec fn settings_error_text(e: SettingsError) -> Seq<char> {
    match e {
        SettingsError::InvalidFps => "FPSは30または60を指定してください。"@,
        SettingsError::InvalidQuality => "画質の指定が不正です。"@,
        SettingsError::InvalidSaveDirectory => "保存先が不正です。"@,
        SettingsError::InvalidMicrophoneId => "マイクデバイスIDが不正です。"@,
    }
}

impl SettingsError {
    pub fn message(&self) -> (r: String)
        ensures
            r@ == settings_error_text(*self),
    {
        match self {
            SettingsError::InvalidFps => String::from_str("FPSは30または60を指定してください。"),
            SettingsError::InvalidQuality => String::from_str("画質の指定が不正です。"),
            SettingsError::InvalidSaveDirectory => String::from_str("保存先が不正です。"),
            SettingsError::InvalidMicrophoneId => String::from_str("マイクデバイスIDが不正です。"),
        }
    }
}

/// What [`validate_settings`] decides.
pub open spec fn settings_validation(s: AppSettings) -> Result<(), SettingsError> {
    if !is_frame_rate(s.fps) {
        Err(SettingsError::InvalidFps)
    } else if !is_quality(s.quality@) {
        Err(SettingsError::InvalidQuality)
    } else if is_blank(s.save_directory@) || byte_len(s.save_directory@) > 1024 {
        Err(SettingsError::InvalidSaveDirectory)
    } else if s.microphone_id matches Some(id) && byte_len(id@) > 2048 {
        Err(SettingsError::InvalidMicrophoneId)
    } else {
        Ok(())
    }
}

/// Accepts 30 or 60 FPS, standard or high quality, a save folder that is not
/// blank and at most 1024 bytes long, and a microphone id of at most 2048 bytes.
pub fn validate_settings(settings: &AppSettings) -> (r: Result<(), SettingsError>)
    ensures
        r == settings_validation(*settings),
{
    if !(settings.fps == 30 || settings.fps == 60) {
        return Err(SettingsError::InvalidFps);
    }
    if !quality_name(settings.quality.as_str()) {
        return Err(SettingsError::InvalidQuality);
    }
    if blank(settings.save_directory.as_str()) || text_byte_len(settings.save_directory.as_str())
        > 1024 {
        return Err(SettingsError::InvalidSaveDirectory);
    }
    match &settings.microphone_id {
        Some(id) => {
            if text_byte_len(id.as_str()) > 2048 {
                return Err(SettingsError::InvalidMicrophoneId);
            }
        },
        None => {},
    }
    Ok(())
}

/// The preferences of a first start: save into `save_directory`, standard
/// quality at 30 FPS, with system audio and without microphone.
pub fn default_settings(save_directory: String) -> (s: AppSettings)
    ensures
        s.save_directory == save_directory,
        s.quality@ == "standard"@,
        s.fps == 30,
        s.system_audio,
        !s.microphone,
        s.microphone_id is None,
{
    AppSettings {
        save_directory,
        quality: String::from_str("standard"),
        fps: 30,
        system_audio: true,
        microphone: false,
        microphone_id: None,
    }
}

/// The first-start preferences pass validation whenever their save folder does.
pub proof fn law_defaults_are_valid(s: AppSettings)
    requires
        s.quality@ == "standard"@,
        s.fps == 30,
        s.microphone_id is None,
        !is_blank(s.save_directory@),
        byte_len(s.save_directory@) <= 1024,
    ensures
        settings_validation(s) is Ok,
{
}

/// Preferences pass exactly when the frame rate is 30 or 60, the quality is
/// standard or high, the save folder is not blank and at most 1024 bytes, and
/// the microphone id, if any, is at most 2048 bytes; whether system audio or
/// the microphone is on never matters.
pub proof fn law_settings_rules(s: AppSettings, system_audio: bool, microphone: bool)
    ensures
        settings_validation(s) is Ok <==> {
            &&& (s.fps == 30 || s.fps == 60)
            &&& (s.quality@ == "standard"@ || s.quality@ == "high"@)
            &&& !is_blank(s.save_directory@)
            &&& byte_len(s.save_directory@) <= 1024
            &&& (s.microphone_id matches Some(id) ==> byte_len(id@) <= 2048)
        },
        settings_validation(AppSettings { system_audio, microphone, ..s }) == settings_validation(s),
{
}

} // verus!
