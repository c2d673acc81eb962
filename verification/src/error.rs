//! Error classification and the stable numeric error codes of the
//! client interface.

use vstd::prelude::*;
use crate::text::dec_string_of;
use crate::text::u64_to_dec_string;

verus! {

/// The stable error-code taxonomy of the client interface.
#[derive(Clone, Copy, Debug, PartialEq, Eq, Structural)]
pub enum XetErrorCode {
    Success,
    InvalidConfig,
    AuthFailed,
    NetworkError,
    NotFound,
    PermissionDenied,
    ChecksumMismatch,
    Cancelled,
    IoError,
    Unknown,
}

/// The numeric value a code carries across the interface.
pub open spec fn code_number(c: XetErrorCode) -> int {
    match c {
        XetErrorCode::Success => 0,
        XetErrorCode::InvalidConfig => 1,
        XetErrorCode::AuthFailed => 2,
        XetErrorCode::NetworkError => 3,
        XetErrorCode::NotFound => 4,
        XetErrorCode::PermissionDenied => 5,
        XetErrorCode::ChecksumMismatch => 6,
        XetErrorCode::Cancelled => 7,
        XetErrorCode::IoError => 8,
        XetErrorCode::Unknown => 99,
    }
}

impl XetErrorCode {
    /// The numeric form of this code.
    pub fn as_i32(&self) -> (r: i32)
        ensures
            r == code_number(*self),
    {
        match self {
            XetErrorCode::Success => 0,
            XetErrorCode::InvalidConfig => 1,
            XetErrorCode::AuthFailed => 2,
            XetErrorCode::NetworkError => 3,
            XetErrorCode::NotFound => 4,
            XetErrorCode::PermissionDenied => 5,
            XetErrorCode::ChecksumMismatch => 6,
            XetErrorCode::Cancelled => 7,
            XetErrorCode::IoError => 8,
            XetErrorCode::Unknown => 99,
        }
    }
}

/// A failure of a download operation, with the data its message is
/// built from.
#[derive(Debug, Clone)]
pub enum DownloadError {
    /// A required parameter was missing or malformed.
    InvalidConfig { message: String },
    /// The file asked for does not appear in the repository listing.
    NotFound { filename: String },
    /// The caller's cancellation token returned true.
    Cancelled,
    /// An HTTP operation ran out of attempts; the last status seen.
    HttpStatus { description: String, attempts: u64, status: u64 },
    /// An HTTP operation ran out of attempts; the last transport error.
    Transport { description: String, attempts: u64, message: String },
    /// A local read or write failed.
    Io { message: String },
    /// Required response headers were absent.
    MissingXetHeaders,
}

impl DownloadError {
    /// The code this error surfaces as.
    pub fn code(&self) -> (r: XetErrorCode)
        ensures
            r == error_code_spec(self),
    {
        match self {
            DownloadError::InvalidConfig { .. } => XetErrorCode::InvalidConfig,
            DownloadError::NotFound { .. } => XetErrorCode::NotFound,
            DownloadError::Cancelled => XetErrorCode::Cancelled,
            DownloadError::HttpStatus { .. } => XetErrorCode::NetworkError,
            DownloadError::Transport { .. } => XetErrorCode::NetworkError,
            DownloadError::Io { .. } => XetErrorCode::IoError,
            DownloadError::MissingXetHeaders => XetErrorCode::Unknown,
        }
    }

    /// The message this error surfaces, built from its fields.
    pub fn message(&self) -> (r: String)
        ensures
            r@ == error_message_spec(self),
    {
        match self {
            DownloadError::InvalidConfig { message } => message.clone(),
            DownloadError::NotFound { filename } => {
                let mut s = crate::text::concat_str("File ", filename.as_str());
                s.append(" not found in repository");
                s
            },
            DownloadError::Cancelled => String::from_str("Download cancelled"),
            DownloadError::HttpStatus { description, attempts, status } => {
                let mut s = description.clone();
                s.append(" failed after ");
                let a = u64_to_dec_string(*attempts);
                s.append(a.as_str());
                s.append(" attempts: HTTP ");
                let st = u64_to_dec_string(*status);
                s.append(st.as_str());
                s
            },
            DownloadError::Transport { description, attempts, message } => {
                let mut s = description.clone();
                s.append(" failed after ");
                let a = u64_to_dec_string(*attempts);
                s.append(a.as_str());
                s.append(" attempts: ");
                s.append(message.as_str());
                s
            },
            DownloadError::Io { message } => message.clone(),
            DownloadError::MissingXetHeaders => String::from_str(
                "XET headers not found in response",
            ),
        }
    }
}

/// The code of each error kind.
pub open spec fn error_code_spec(e: &DownloadError) -> XetErrorCode {
    match e {
        DownloadError::InvalidConfig { .. } => XetErrorCode::InvalidConfig,
        DownloadError::NotFound { .. } => XetErrorCode::NotFound,
        DownloadError::Cancelled => XetErrorCode::Cancelled,
        DownloadError::HttpStatus { .. } => XetErrorCode::NetworkError,
        DownloadError::Transport { .. } => XetErrorCode::NetworkError,
        DownloadError::Io { .. } => XetErrorCode::IoError,
        DownloadError::MissingXetHeaders => XetErrorCode::Unknown,
    }
}

/// The message of each error kind.
pub open spec fn error_message_spec(e: &DownloadError) -> Seq<char> {
    match e {
        DownloadError::InvalidConfig { message } => message@,
        DownloadError::NotFound { filename } => "File "@ + filename@
            + " not found in repository"@,
        DownloadError::Cancelled => "Download cancelled"@,
        DownloadError::HttpStatus { description, attempts, status } => description@
            + " failed after "@ + dec_string_of(*attempts as nat) + " attempts: HTTP "@
            + dec_string_of(*status as nat),
        DownloadError::Transport { description, attempts, message } => description@
            + " failed after "@ + dec_string_of(*attempts as nat) + " attempts: "@ + message@,
        DownloadError::Io { message } => message@,
        DownloadError::MissingXetHeaders => "XET headers not found in response"@,
    }
}

} // verus!
