use purple_capture::models::AppSettings;
use purple_capture::settings::{default_settings, validate_settings, SettingsError};

#[test]
fn first_start_settings_are_valid() {
    let settings = default_settings("C:\\Videos".to_string());
    assert_eq!(settings.quality, "standard");
    assert_eq!(settings.fps, 30);
    assert!(settings.system_audio && !settings.microphone && settings.microphone_id.is_none());
    assert_eq!(validate_settings(&settings), Ok(()));
}

#[test]
fn each_bad_setting_is_named() {
    let good = default_settings("D:\\Rec".to_string());
    let with = |f: &dyn Fn(&mut AppSettings)| {
        let mut s = good.clone();
        f(&mut s);
        validate_settings(&s)
    };
    assert_eq!(with(&|s| s.fps = 24), Err(SettingsError::InvalidFps));
    assert_eq!(with(&|s| s.fps = 60), Ok(()));
    assert_eq!(with(&|s| s.quality = "ultra".to_string()), Err(SettingsError::InvalidQuality));
    assert_eq!(with(&|s| s.quality = "high".to_string()), Ok(()));
    assert_eq!(with(&|s| s.save_directory = " \t".to_string()), Err(SettingsError::InvalidSaveDirectory));
    assert_eq!(with(&|s| s.save_directory = "a".repeat(1025)), Err(SettingsError::InvalidSaveDirectory));
    assert_eq!(with(&|s| s.save_directory = "a".repeat(1024)), Ok(()));
    assert_eq!(with(&|s| s.microphone_id = Some("m".repeat(2049))), Err(SettingsError::InvalidMicrophoneId));
    assert_eq!(with(&|s| s.microphone_id = Some("m".repeat(2048))), Ok(()));
    assert_eq!(SettingsError::InvalidSaveDirectory.message(), "保存先が不正です。");
}
