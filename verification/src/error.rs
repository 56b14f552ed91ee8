//! The error types of the player, the text each one reads as, which of them
//! the player can recover from, what the user is told and how each is logged.
use vstd::prelude::*;

verus! {

/// Audio playback errors.
#[derive(Debug)]
pub enum AudioError {
    /// The audio device could not be set up.
    DeviceInitialization(String),
    /// An audio file could not be loaded.
    FileLoad(String),
    /// The audio format is not supported.
    UnsupportedFormat(String),
    /// Playback failed.
    Playback(String),
    /// The volume could not be set.
    VolumeControl(String),
}

/// Library management errors.
#[derive(Debug)]
pub enum LibraryError {
    /// A directory scan failed.
    ScanFailed(String),
    /// Metadata could not be read.
    MetadataRead(String),
    /// A path is not valid.
    InvalidPath(String),
    /// Access was denied.
    PermissionDenied(String),
}

/// Settings and configuration errors.
#[derive(Debug)]
pub enum SettingsError {
    /// Settings could not be loaded.
    LoadFailed(String),
    /// Settings could not be saved.
    SaveFailed(String),
    /// A configuration value is not valid.
    InvalidConfig(String),
    /// Settings could not be serialized.
    Serialization(String),
}

/// User interface errors.
#[derive(Debug)]
pub enum UiError {
    /// The window could not be created.
    WindowCreation(String),
    /// Drawing failed.
    Rendering(String),
    /// A font could not be loaded.
    FontLoading(String),
}

/// The kinds of I/O failure that the player tells apart.
#[derive(Debug, Clone, Copy, PartialEq, Eq)]
pub enum IoErrorKind {
    /// The file or directory was not found.
    NotFound,
    /// Access was denied.
    PermissionDenied,
    /// Any other I/O failure.
    Other,
}

/// An I/O failure: its kind and the text the operating system gave for it.
#[derive(Debug)]
pub struct IoError {
    pub kind: IoErrorKind,
    pub message: String,
}

/// Any error of the player.
#[derive(Debug)]
pub enum RustifyError {
    /// Audio playback related errors.
    Audio(AudioError),
    /// Library management errors.
    Library(LibraryError),
    /// Settings and configuration errors.
    Settings(SettingsError),
    /// User interface errors.
    Ui(UiError),
    /// I/O errors.
    Io(IoError),
    /// Any other error, with its message.
    Generic(String),
}

/// How severe a logged error is.
#[derive(Debug, Clone, Copy, PartialEq, Eq)]
pub enum LogLevel {
    Warn,
    Error,
}

/// A log entry: its level and its text.
#[derive(Debug)]
pub struct LogRecord {
    pub level: LogLevel,
    pub message: String,
}

/// The text of an audio error.
pub open spec fn audio_text(e: AudioError) -> Seq<char> {
    match e {
        AudioError::DeviceInitialization(m) => "Device initialization failed: "@ + m@,
        AudioError::FileLoad(m) => "Failed to load audio file: "@ + m@,
        AudioError::UnsupportedFormat(m) => "Unsupported audio format: "@ + m@,
        AudioError::Playback(m) => "Playback error: "@ + m@,
        AudioError::VolumeControl(m) => "Volume control error: "@ + m@,
    }
}

/// The text of a library error.
pub open spec fn library_text(e: LibraryError) -> Seq<char> {
    match e {
        LibraryError::ScanFailed(m) => "Library scan failed: "@ + m@,
        LibraryError::MetadataRead(m) => "Failed to read metadata: "@ + m@,
        LibraryError::InvalidPath(m) => "Invalid path: "@ + m@,
        LibraryError::PermissionDenied(m) => "Permission denied: "@ + m@,
    }
}

/// The text of a settings error.
pub open spec fn settings_text(e: SettingsError) -> Seq<char> {
    match e {
        SettingsError::LoadFailed(m) => "Failed to load settings: "@ + m@,
        SettingsError::SaveFailed(m) => "Failed to save settings: "@ + m@,
        SettingsError::InvalidConfig(m) => "Invalid configuration: "@ + m@,
        SettingsError::Serialization(m) => "Serialization error: "@ + m@,
    }
}

/// The text of a user interface error.
pub open spec fn ui_text(e: UiError) -> Seq<char> {
    match e {
        UiError::WindowCreation(m) => "Window creation failed: "@ + m@,
        UiError::Rendering(m) => "Rendering error: "@ + m@,
        UiError::FontLoading(m) => "Font loading error: "@ + m@,
    }
}

/// The text of an error: a prefix naming its area, then the inner text.
pub open spec fn error_text(e: RustifyError) -> Seq<char> {
    match e {
        RustifyError::Audio(a) => "Audio error: "@ + audio_text(a),
        RustifyError::Library(l) => "Library error: "@ + library_text(l),
        RustifyError::Settings(s) => "Settings error: "@ + settings_text(s),
        RustifyError::Ui(u) => "UI error: "@ + ui_text(u),
        RustifyError::Io(i) => "IO error: "@ + i.message@,
        RustifyError::Generic(m) => "Error: "@ + m@,
    }
}

/// The errors after which the player carries on: a failed volume change, an
/// unreadable tag, settings that did not load, and I/O failures other than a
/// denied permission.
pub open spec fn recoverable(e: RustifyError) -> bool {
    match e {
        RustifyError::Audio(AudioError::VolumeControl(_)) => true,
        RustifyError::Library(LibraryError::MetadataRead(_)) => true,
        RustifyError::Settings(SettingsError::LoadFailed(_)) => true,
        RustifyError::Io(i) => i.kind != IoErrorKind::PermissionDenied,
        _ => false,
    }
}

/// What the user is told of an error: a fixed advice for a failed audio
/// device, an unsupported format, a denied library access and settings that
/// did not save; the error's text otherwise.
pub open spec fn user_text(e: RustifyError) -> Seq<char> {
    match e {
        RustifyError::Audio(AudioError::DeviceInitialization(_)) => "Could not initialize audio device. Check your audio settings."@,
        RustifyError::Audio(AudioError::UnsupportedFormat(_)) => "This audio format is not supported."@,
        RustifyError::Library(LibraryError::PermissionDenied(_)) => "Permission denied accessing music files."@,
        RustifyError::Settings(SettingsError::SaveFailed(_)) => "Could not save settings. Check file permissions."@,
        _ => error_text(e),
    }
}

/// The level at which an error is logged: a warning for a failed volume
/// change and an unreadable tag, an error otherwise.
pub open spec fn log_level_of(e: RustifyError) -> LogLevel {
    match e {
        RustifyError::Audio(AudioError::VolumeControl(_)) => LogLevel::Warn,
        RustifyError::Library(LibraryError::MetadataRead(_)) => LogLevel::Warn,
        _ => LogLevel::Error,
    }
}

fn prefixed(prefix: &str, rest: &str) -> (r: String)
    ensures
        r@ == prefix@ + rest@,
{
    let mut r = String::from_str(prefix);
    r.append(rest);
    r
}

impl AudioError {
    /// The error's text.
    pub fn describe(&self) -> (r: String)
        ensures
            r@ == audio_text(*self),
    {
        match self {
            AudioError::DeviceInitialization(m) => prefixed("Device initialization failed: ", m.as_str()),
            AudioError::FileLoad(m) => prefixed("Failed to load audio file: ", m.as_str()),
            AudioError::UnsupportedFormat(m) => prefixed("Unsupported audio format: ", m.as_str()),
            AudioError::Playback(m) => prefixed("Playback error: ", m.as_str()),
            AudioError::VolumeControl(m) => prefixed("Volume control error: ", m.as_str()),
        }
    }
}

impl LibraryError {
    /// The error's text.
    pub fn describe(&self) -> (r: String)
        ensures
            r@ == library_text(*self),
    {
        match self {
            LibraryError::ScanFailed(m) => prefixed("Library scan failed: ", m.as_str()),
            LibraryError::MetadataRead(m) => prefixed("Failed to read metadata: ", m.as_str()),
            LibraryError::InvalidPath(m) => prefixed("Invalid path: ", m.as_str()),
            LibraryError::PermissionDenied(m) => prefixed("Permission denied: ", m.as_str()),
        }
    }
}

impl SettingsError {
    /// The error's text.
    pub fn describe(&self) -> (r: String)
        ensures
            r@ == settings_text(*self),
    {
        match self {
            SettingsError::LoadFailed(m) => prefixed("Failed to load settings: ", m.as_str()),
            SettingsError::SaveFailed(m) => prefixed("Failed to save settings: ", m.as_str()),
            SettingsError::InvalidConfig(m) => prefixed("Invalid configuration: ", m.as_str()),
            SettingsError::Serialization(m) => prefixed("Serialization error: ", m.as_str()),
        }
    }
}

impl UiError {
    /// The error's text.
    pub fn describe(&self) -> (r: String)
        ensures
            r@ == ui_text(*self),
    {
        match self {
            UiError::WindowCreation(m) => prefixed("Window creation failed: ", m.as_str()),
            UiError::Rendering(m) => prefixed("Rendering error: ", m.as_str()),
            UiError::FontLoading(m) => prefixed("Font loading error: ", m.as_str()),
        }
    }
}

impl RustifyError {
    /// An error with just a message.
    pub fn generic(msg: String) -> (e: RustifyError)
        ensures
            e == RustifyError::Generic(msg),
    {
        RustifyError::Generic(msg)
    }

    /// The error's text: its area, then the inner error's text.
    pub fn describe(&self) -> (r: String)
        ensures
            r@ == error_text(*self),
    {
        match self {
            RustifyError::Audio(a) => prefixed("Audio error: ", a.describe().as_str()),
            RustifyError::Library(l) => prefixed("Library error: ", l.describe().as_str()),
            RustifyError::Settings(s) => prefixed("Settings error: ", s.describe().as_str()),
            RustifyError::Ui(u) => prefixed("UI error: ", u.describe().as_str()),
            RustifyError::Io(i) => prefixed("IO error: ", i.message.as_str()),
            RustifyError::Generic(m) => prefixed("Error: ", m.as_str()),
        }
    }

    /// Whether the player can carry on after this error.
    pub fn is_recoverable(&self) -> (r: bool)
        ensures
            r == recoverable(*self),
    {
        match self {
            RustifyError::Audio(AudioError::VolumeControl(_)) => true,
            RustifyError::Library(LibraryError::MetadataRead(_)) => true,
            RustifyError::Settings(SettingsError::LoadFailed(_)) => true,
            RustifyError::Io(i) => match i.kind {
                IoErrorKind::NotFound => true,
                IoErrorKind::PermissionDenied => false,
                IoErrorKind::Other => true,
            },
            _ => false,
        }
    }

    /// What the user is told of this error.
    pub fn user_message(&self) -> (r: String)
        ensures
            r@ == user_text(*self),
    {
        match self {
            RustifyError::Audio(AudioError::DeviceInitialization(_)) => {
                String::from_str("Could not initialize audio device. Check your audio settings.")
            },
            RustifyError::Audio(AudioError::UnsupportedFormat(_)) => {
                String::from_str("This audio format is not supported.")
            },
            RustifyError::Library(LibraryError::PermissionDenied(_)) => {
                String::from_str("Permission denied accessing music files.")
            },
            RustifyError::Settings(SettingsError::SaveFailed(_)) => {
                String::from_str("Could not save settings. Check file permissions.")
            },
            _ => self.describe(),
        }
    }

    /// The log entry for this error: its level and its text. The caller
    /// hands it to the logger.
    pub fn log(&self) -> (r: LogRecord)
        ensures
            r.level == log_level_of(*self),
            r.message@ == error_text(*self),
    {
        let level = match self {
            RustifyError::Audio(AudioError::VolumeControl(_)) => LogLevel::Warn,
            RustifyError::Library(LibraryError::MetadataRead(_)) => LogLevel::Warn,
            RustifyError::Settings(_) => LogLevel::Error,
            _ => LogLevel::Error,
        };
        LogRecord { level, message: self.describe() }
    }
}

} // verus!
