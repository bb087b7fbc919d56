use vstd::prelude::*;
use vstd::string::*;

verus! {

/// Everything that can go wrong while a request is served.
#[derive(Debug, Copy, Clone, PartialEq, Eq, Structural)]
pub enum Exception {
    /// The request buffer is not valid UTF-8.
    RequestIsNotUtf8,
    /// The method token is none of GET, HEAD, OPTIONS, POST.
    UnSupportedRequestMethod,
    /// The version token is not `HTTP/1.1`.
    UnsupportedHttpVersion,
    /// The request line has fewer than three tokens, or a header that is
    /// looked for carries no `": "` delimiter.
    MalformedRequest,
    /// The requested path names nothing on disk.
    FileNotFound,
    /// The script interpreter could not be started.
    PHPExecuteFailed,
    /// The script interpreter ran and reported failure.
    PHPCodeError,
    /// An encoder failed while compressing a body.
    CompressionFailed,
    /// A cache was asked for with room for no entry at all.
    ZeroCapacity,
}

impl Exception {
    /// The message of this error, as a sequence of characters.
    pub open spec fn message(self) -> Seq<char> {
        match self {
            Exception::RequestIsNotUtf8 => "Request bytes can't be parsed in UTF-8"@,
            Exception::UnSupportedRequestMethod => "Unsupported request method"@,
            Exception::UnsupportedHttpVersion => "Unsupported HTTP version"@,
            Exception::MalformedRequest => "Malformed request"@,
            Exception::FileNotFound => "File not found (404)"@,
            Exception::PHPExecuteFailed => "Couldn't invoke PHP interpreter"@,
            Exception::PHPCodeError => "An error happened in php code"@,
            Exception::CompressionFailed => "Couldn't compress the response body"@,
            Exception::ZeroCapacity => "Cache capacity must be at least 1"@,
        }
    }

    /// Renders the error for a log line or a console.
    pub fn to_string(&self) -> (text: String)
        ensures
            text@ == self.message(),
    {
        match self {
            Exception::RequestIsNotUtf8 => String::from_str("Request bytes can't be parsed in UTF-8"),
            Exception::UnSupportedRequestMethod => String::from_str("Unsupported request method"),
            Exception::UnsupportedHttpVersion => String::from_str("Unsupported HTTP version"),
            Exception::MalformedRequest => String::from_str("Malformed request"),
            Exception::FileNotFound => String::from_str("File not found (404)"),
            Exception::PHPExecuteFailed => String::from_str("Couldn't invoke PHP interpreter"),
            Exception::PHPCodeError => String::from_str("An error happened in php code"),
            Exception::CompressionFailed => String::from_str("Couldn't compress the response body"),
            Exception::ZeroCapacity => String::from_str("Cache capacity must be at least 1"),
        }
    }
}

} // verus!
