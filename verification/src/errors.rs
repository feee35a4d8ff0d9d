//! The run's error taxonomy and the log-level colour table.

use vstd::prelude::*;

use crate::classify::EntryKind;
use crate::text::starts_with;

verus! {

/// A fatal error: the run aborts with no usable output.
#[derive(Debug)]
pub enum SicomError {
    /// The input pack path does not name an existing file.
    InputNotFound(String),
    /// The input pack path does not carry the `.siq` extension.
    InvalidSiqFile(String),
    /// An image entry could not be processed at all.
    ImageProcessingError { name: String, cause: String },
    /// A quality parameter for the given media kind lies outside 1..=100.
    InvalidQuality { kind: EntryKind, value: u8 },
}

pub open spec fn spec_error_message(e: &SicomError) -> Seq<char> {
    match e {
        SicomError::InputNotFound(p) => "Input file does not exist: "@ + p@,
        SicomError::InvalidSiqFile(p) => "Input file is not a valid .siq file: "@ + p@,
        SicomError::ImageProcessingError { name, cause } => "Failed to process image "@ + name@
            + ": "@ + cause@,
        SicomError::InvalidQuality { kind, value } => match kind {
            EntryKind::Image => "Image quality must be between 1 and 100"@,
            EntryKind::Audio => "Audio quality must be between 1 and 100"@,
            EntryKind::Video => "Video quality must be between 1 and 100"@,
            _ => "Quality must be between 1 and 100"@,
        },
    }
}

impl SicomError {
    /// A human-readable description of the error.
    pub fn message(&self) -> (r: String)
        ensures
            r@ == spec_error_message(self),
    {
        match self {
            SicomError::InputNotFound(p) => String::from_str("Input file does not exist: ").concat(
                p.as_str(),
            ),
            SicomError::InvalidSiqFile(p) => String::from_str(
                "Input file is not a valid .siq file: ",
            ).concat(p.as_str()),
            SicomError::ImageProcessingError { name, cause } => {
                let mut s = String::from_str("Failed to process image ");
                s.append(name.as_str());
                s.append(": ");
                s.append(cause.as_str());
                s
            },
            SicomError::InvalidQuality { kind, value: _ } => match kind {
                EntryKind::Image => String::from_str("Image quality must be between 1 and 100"),
                EntryKind::Audio => String::from_str("Audio quality must be between 1 and 100"),
                EntryKind::Video => String::from_str("Video quality must be between 1 and 100"),
                _ => String::from_str("Quality must be between 1 and 100"),
            },
        }
    }
}

#[derive(Clone, Copy, Debug, PartialEq, Eq)]
pub enum LogLevel {
    Error,
    Warn,
    Info,
    Debug,
    Trace,
}

pub open spec fn spec_log_color(level: LogLevel) -> Seq<char> {
    match level {
        LogLevel::Error => "\x1b[91m"@,
        LogLevel::Warn => "\x1b[33m"@,
        LogLevel::Info => "\x1b[32m"@,
        LogLevel::Debug => "\x1b[90m"@,
        LogLevel::Trace => "\x1b[90m"@,
    }
}

/// The ANSI colour code used when printing a message of the given level.
pub fn get_log_color(level: LogLevel) -> (r: &'static str)
    ensures
        r@ == spec_log_color(level),
{
    match level {
        LogLevel::Error => "\x1b[91m",
        LogLevel::Warn => "\x1b[33m",
        LogLevel::Info => "\x1b[32m",
        LogLevel::Debug => "\x1b[90m",
        LogLevel::Trace => "\x1b[90m",
    }
}

pub open spec fn spec_log_color_with_module(level: LogLevel, module: Option<&str>) -> Seq<
    char,
> {
    match module {
        Some(m) => if starts_with(m@, "symphonia"@) && level is Info {
            "\x1b[90m"@
        } else {
            spec_log_color(level)
        },
        None => spec_log_color(level),
    }
}

/// As `get_log_color`, except that informational messages of the audio
/// decoder's modules are dimmed to reduce visual noise.
pub fn get_log_color_with_module(level: LogLevel, module: Option<&str>) -> (r: &'static str)
    ensures
        r@ == spec_log_color_with_module(level, module),
{
    match module {
        Some(m) => {
            if crate::text::str_starts_with(m, "symphonia") && matches!(level, LogLevel::Info) {
                "\x1b[90m"
            } else {
                get_log_color(level)
            }
        },
        None => get_log_color(level),
    }
}

} // verus!
