//! Errors reported by camera operations.

use vstd::prelude::*;
use vstd::string::StringExecFns;

verus! {

broadcast use vstd::string::to_string_from_display_ensures_for_str;

/// Errors reported by camera operations.
#[derive(Debug, Clone, PartialEq, Eq)]
pub enum CameraError {
    /// The camera system or a device could not be initialized.
    InitializationError(String),
    /// A frame could not be captured.
    CaptureError(String),
    /// A camera control could not be read or written.
    ControlError(String),
    /// The operation is not supported on this platform or device.
    UnsupportedOperation(String),
    /// A camera could not be (re)connected.
    ConnectionError(String),
    /// A camera could not be accessed.
    AccessError(String),
    /// An operating-system level failure.
    SystemError(String),
    /// A stream could not be started or stopped.
    StreamError(String),
    /// A file could not be read or written.
    IoError(String),
    /// A frame could not be encoded.
    EncodingError(String),
    /// A recording could not be muxed.
    MuxingError(String),
}

/// The text that introduces an error of each kind.
pub open spec fn error_prefix(e: CameraError) -> Seq<char> {
    match e {
        CameraError::InitializationError(_) => "Camera initialization error: "@,
        CameraError::CaptureError(_) => "Capture error: "@,
        CameraError::ControlError(_) => "Control error: "@,
        CameraError::UnsupportedOperation(_) => "Unsupported operation: "@,
        CameraError::ConnectionError(_) => "Connection error: "@,
        CameraError::AccessError(_) => "Access error: "@,
        CameraError::SystemError(_) => "System error: "@,
        CameraError::StreamError(_) => "Stream error: "@,
        CameraError::IoError(_) => "IO error: "@,
        CameraError::EncodingError(_) => "Encoding error: "@,
        CameraError::MuxingError(_) => "Muxing error: "@,
    }
}

/// The detail an error carries.
pub open spec fn error_detail(e: CameraError) -> Seq<char> {
    match e {
        CameraError::InitializationError(m) => m@,
        CameraError::CaptureError(m) => m@,
        CameraError::ControlError(m) => m@,
        CameraError::UnsupportedOperation(m) => m@,
        CameraError::ConnectionError(m) => m@,
        CameraError::AccessError(m) => m@,
        CameraError::SystemError(m) => m@,
        CameraError::StreamError(m) => m@,
        CameraError::IoError(m) => m@,
        CameraError::EncodingError(m) => m@,
        CameraError::MuxingError(m) => m@,
    }
}

impl CameraError {
    /// The human-readable text of the error: its kind, then its detail.
    pub fn message(&self) -> (s: String)
        ensures
            s@ == error_prefix(*self) + error_detail(*self),
    {
        let (prefix, detail) = match self {
            CameraError::InitializationError(m) => ("Camera initialization error: ", m),
            CameraError::CaptureError(m) => ("Capture error: ", m),
            CameraError::ControlError(m) => ("Control error: ", m),
            CameraError::UnsupportedOperation(m) => ("Unsupported operation: ", m),
            CameraError::ConnectionError(m) => ("Connection error: ", m),
            CameraError::AccessError(m) => ("Access error: ", m),
            CameraError::SystemError(m) => ("System error: ", m),
            CameraError::StreamError(m) => ("Stream error: ", m),
            CameraError::IoError(m) => ("IO error: ", m),
            CameraError::EncodingError(m) => ("Encoding error: ", m),
            CameraError::MuxingError(m) => ("Muxing error: ", m),
        };
        prefix.to_string().concat(detail.as_str())
    }
}

} // verus!
