use rustify::error::{
    AudioError, IoError, IoErrorKind, LibraryError, LogLevel, RustifyError, SettingsError, UiError,
};

#[test]
fn error_texts_name_the_area() {
    let e = RustifyError::Audio(AudioError::FileLoad("x.mp3".to_string()));
    assert_eq!(e.describe(), "Audio error: Failed to load audio file: x.mp3");
    let e = RustifyError::Library(LibraryError::ScanFailed("boom".to_string()));
    assert_eq!(e.describe(), "Library error: Library scan failed: boom");
    let e = RustifyError::Settings(SettingsError::Serialization("bad".to_string()));
    assert_eq!(e.describe(), "Settings error: Serialization error: bad");
    let e = RustifyError::Ui(UiError::FontLoading("f".to_string()));
    assert_eq!(e.describe(), "UI error: Font loading error: f");
    let e = RustifyError::Io(IoError { kind: IoErrorKind::NotFound, message: "gone".to_string() });
    assert_eq!(e.describe(), "IO error: gone");
    assert_eq!(RustifyError::generic("oops".to_string()).describe(), "Error: oops");
}

#[test]
fn recoverable_errors() {
    assert!(RustifyError::Audio(AudioError::VolumeControl(String::new())).is_recoverable());
    assert!(RustifyError::Library(LibraryError::MetadataRead(String::new())).is_recoverable());
    assert!(RustifyError::Settings(SettingsError::LoadFailed(String::new())).is_recoverable());
    assert!(RustifyError::Io(IoError { kind: IoErrorKind::NotFound, message: String::new() }).is_recoverable());
    assert!(RustifyError::Io(IoError { kind: IoErrorKind::Other, message: String::new() }).is_recoverable());
    assert!(!RustifyError::Io(IoError { kind: IoErrorKind::PermissionDenied, message: String::new() }).is_recoverable());
    assert!(!RustifyError::Audio(AudioError::Playback(String::new())).is_recoverable());
    assert!(!RustifyError::generic("g".to_string()).is_recoverable());
}

#[test]
fn user_messages() {
    assert_eq!(
        RustifyError::Audio(AudioError::DeviceInitialization("d".to_string())).user_message(),
        "Could not initialize audio device. Check your audio settings."
    );
    assert_eq!(
        RustifyError::Audio(AudioError::UnsupportedFormat("d".to_string())).user_message(),
        "This audio format is not supported."
    );
    assert_eq!(
        RustifyError::Library(LibraryError::PermissionDenied("d".to_string())).user_message(),
        "Permission denied accessing music files."
    );
    assert_eq!(
        RustifyError::Settings(SettingsError::SaveFailed("d".to_string())).user_message(),
        "Could not save settings. Check file permissions."
    );
    assert_eq!(
        RustifyError::Library(LibraryError::InvalidPath("p".to_string())).user_message(),
        "Library error: Invalid path: p"
    );
}

#[test]
fn log_levels() {
    let w = RustifyError::Audio(AudioError::VolumeControl("v".to_string())).log();
    assert_eq!(w.level, LogLevel::Warn);
    assert_eq!(w.message, "Audio error: Volume control error: v");
    let w = RustifyError::Library(LibraryError::MetadataRead("m".to_string())).log();
    assert_eq!(w.level, LogLevel::Warn);
    let e = RustifyError::Settings(SettingsError::InvalidConfig("c".to_string())).log();
    assert_eq!(e.level, LogLevel::Error);
    assert_eq!(e.message, "Settings error: Invalid configuration: c");
    assert_eq!(RustifyError::generic("x".to_string()).log().level, LogLevel::Error);
}
