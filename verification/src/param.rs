//! The fixed vocabulary of the server: protocol constants, the methods,
//! versions and encodings it knows, and the two catalogs (status code to
//! reason phrase, file extension to MIME type).

use vstd::prelude::*;
use vstd::string::*;
use crate::text::str_eq;

verus! {

/// The resource that the path `/` stands for.
pub const HTML_INDEX: &'static str = "files/html/index.html";

/// What the `Server` header says.
pub const SERVER_NAME: &'static str = "eslzzyl-webserver";

/// The line terminator of HTTP.
pub const CRLF: &'static str = "\r\n";

/// The MIME type given to an extension that the catalog does not list.
pub const DEFAULT_MIME: &'static str = "application/octet-stream";

/// The protocol versions that are served.
#[derive(Debug, Clone, Copy, PartialEq, Eq, Structural)]
pub enum HttpVersion {
    V1_1,
}

/// The request methods that the parser accepts. `Post` is parsed and then
/// refused when the response is built.
#[derive(Debug, Clone, Copy, PartialEq, Eq, Structural)]
pub enum HttpRequestMethod {
    Get,
    Head,
    Options,
    Post,
}

/// The content encodings that can be applied to a body. No encoding at all
/// is written `None` of `Option<HttpEncoding>`.
#[derive(Debug, Clone, Copy, PartialEq, Eq, Structural)]
pub enum HttpEncoding {
    Gzip,
    Deflate,
    Br,
}

impl HttpVersion {
    /// The version number as it stands after `HTTP/`.
    pub open spec fn text(self) -> Seq<char> {
        match self {
            HttpVersion::V1_1 => "1.1"@,
        }
    }

    /// The version number as it stands after `HTTP/`.
    pub fn as_str(&self) -> (s: &'static str)
        ensures
            s@ == self.text(),
    {
        match self {
            HttpVersion::V1_1 => "1.1",
        }
    }

    /// The version number as an owned string.
    pub fn to_string(&self) -> (s: String)
        ensures
            s@ == self.text(),
    {
        String::from_str(self.as_str())
    }
}

impl HttpRequestMethod {
    /// The method token in upper case.
    pub open spec fn text(self) -> Seq<char> {
        match self {
            HttpRequestMethod::Get => "GET"@,
            HttpRequestMethod::Head => "HEAD"@,
            HttpRequestMethod::Options => "OPTIONS"@,
            HttpRequestMethod::Post => "POST"@,
        }
    }

    /// The method token in upper case.
    pub fn as_str(&self) -> (s: &'static str)
        ensures
            s@ == self.text(),
    {
        match self {
            HttpRequestMethod::Get => "GET",
            HttpRequestMethod::Head => "HEAD",
            HttpRequestMethod::Options => "OPTIONS",
            HttpRequestMethod::Post => "POST",
        }
    }

    /// The method token as an owned string.
    pub fn to_string(&self) -> (s: String)
        ensures
            s@ == self.text(),
    {
        String::from_str(self.as_str())
    }
}

impl HttpEncoding {
    /// The token of the encoding in `Accept-Encoding` and
    /// `Content-Encoding`.
    pub open spec fn text(self) -> Seq<char> {
        match self {
            HttpEncoding::Gzip => "gzip"@,
            HttpEncoding::Deflate => "deflate"@,
            HttpEncoding::Br => "br"@,
        }
    }

    /// The token of the encoding.
    pub fn as_str(&self) -> (s: &'static str)
        ensures
            s@ == self.text(),
    {
        match self {
            HttpEncoding::Gzip => "gzip",
            HttpEncoding::Deflate => "deflate",
            HttpEncoding::Br => "br",
        }
    }

    /// The token of the encoding as an owned string.
    pub fn to_string(&self) -> (s: String)
        ensures
            s@ == self.text(),
    {
        String::from_str(self.as_str())
    }
}

/// The reason phrase of each status code that the server knows.
pub open spec fn reason_phrase(code: u16) -> Option<Seq<char>> {
    if code == 100 {
        Some("Continue"@)
    } else if code == 101 {
        Some("Switching Protocols"@)
    } else if code == 200 {
        Some("OK"@)
    } else if code == 201 {
        Some("Created"@)
    } else if code == 202 {
        Some("Accepted"@)
    } else if code == 203 {
        Some("Non-Authoritative Information"@)
    } else if code == 204 {
        Some("No Content"@)
    } else if code == 205 {
        Some("Reset Content"@)
    } else if code == 206 {
        Some("Partial Content"@)
    } else if code == 300 {
        Some("Multiple Choices"@)
    } else if code == 301 {
        Some("Moved Permanently"@)
    } else if code == 302 {
        Some("Found"@)
    } else if code == 303 {
        Some("See Other"@)
    } else if code == 304 {
        Some("Not Modified"@)
    } else if code == 305 {
        Some("Use Proxy"@)
    } else if code == 307 {
        Some("Temporary Redirect"@)
    } else if code == 308 {
        Some("Permanent Redirect"@)
    } else if code == 400 {
        Some("Bad Request"@)
    } else if code == 401 {
        Some("Unauthorized"@)
    } else if code == 402 {
        Some("Payment Required"@)
    } else if code == 403 {
        Some("Forbidden"@)
    } else if code == 404 {
        Some("Not Found"@)
    } else if code == 405 {
        Some("Method Not Allowed"@)
    } else if code == 406 {
        Some("Not Acceptable"@)
    } else if code == 407 {
        Some("Proxy Authentication Required"@)
    } else if code == 408 {
        Some("Request Timeout"@)
    } else if code == 409 {
        Some("Conflict"@)
    } else if code == 410 {
        Some("Gone"@)
    } else if code == 411 {
        Some("Length Required"@)
    } else if code == 412 {
        Some("Precondition Failed"@)
    } else if code == 413 {
        Some("Content Too Large"@)
    } else if code == 414 {
        Some("URI Too Long"@)
    } else if code == 415 {
        Some("Unsupported Media Type"@)
    } else if code == 416 {
        Some("Range Not Satisfiable"@)
    } else if code == 417 {
        Some("Expectation Failed"@)
    } else if code == 418 {
        Some("I'm a teapot"@)
    } else if code == 421 {
        Some("Misdirected Request"@)
    } else if code == 422 {
        Some("Unprocessable Content"@)
    } else if code == 426 {
        Some("Upgrade Required"@)
    } else if code == 500 {
        Some("Internal Server Error"@)
    } else if code == 501 {
        Some("Not Implemented"@)
    } else if code == 502 {
        Some("Bad Gateway"@)
    } else if code == 503 {
        Some("Service Unavailable"@)
    } else if code == 504 {
        Some("Gateway Timeout"@)
    } else if code == 505 {
        Some("HTTP Version Not Supported"@)
    } else {
        None
    }
}

/// Whether `code` has an entry in the status catalog.
pub open spec fn known_status(code: u16) -> bool {
    reason_phrase(code) is Some
}

/// Looks `code` up in the status catalog.
pub fn status_text(code: u16) -> (phrase: Option<&'static str>)
    ensures
        match phrase {
            Some(p) => reason_phrase(code) == Some(p@),
            None => reason_phrase(code) is None,
        },
{
    if code == 100 {
        Some("Continue")
    } else if code == 101 {
        Some("Switching Protocols")
    } else if code == 200 {
        Some("OK")
    } else if code == 201 {
        Some("Created")
    } else if code == 202 {
        Some("Accepted")
    } else if code == 203 {
        Some("Non-Authoritative Information")
    } else if code == 204 {
        Some("No Content")
    } else if code == 205 {
        Some("Reset Content")
    } else if code == 206 {
        Some("Partial Content")
    } else if code == 300 {
        Some("Multiple Choices")
    } else if code == 301 {
        Some("Moved Permanently")
    } else if code == 302 {
        Some("Found")
    } else if code == 303 {
        Some("See Other")
    } else if code == 304 {
        Some("Not Modified")
    } else if code == 305 {
        Some("Use Proxy")
    } else if code == 307 {
        Some("Temporary Redirect")
    } else if code == 308 {
        Some("Permanent Redirect")
    } else if code == 400 {
        Some("Bad Request")
    } else if code == 401 {
        Some("Unauthorized")
    } else if code == 402 {
        Some("Payment Required")
    } else if code == 403 {
        Some("Forbidden")
    } else if code == 404 {
        Some("Not Found")
    } else if code == 405 {
        Some("Method Not Allowed")
    } else if code == 406 {
        Some("Not Acceptable")
    } else if code == 407 {
        Some("Proxy Authentication Required")
    } else if code == 408 {
        Some("Request Timeout")
    } else if code == 409 {
        Some("Conflict")
    } else if code == 410 {
        Some("Gone")
    } else if code == 411 {
        Some("Length Required")
    } else if code == 412 {
        Some("Precondition Failed")
    } else if code == 413 {
        Some("Content Too Large")
    } else if code == 414 {
        Some("URI Too Long")
    } else if code == 415 {
        Some("Unsupported Media Type")
    } else if code == 416 {
        Some("Range Not Satisfiable")
    } else if code == 417 {
        Some("Expectation Failed")
    } else if code == 418 {
        Some("I'm a teapot")
    } else if code == 421 {
        Some("Misdirected Request")
    } else if code == 422 {
        Some("Unprocessable Content")
    } else if code == 426 {
        Some("Upgrade Required")
    } else if code == 500 {
        Some("Internal Server Error")
    } else if code == 501 {
        Some("Not Implemented")
    } else if code == 502 {
        Some("Bad Gateway")
    } else if code == 503 {
        Some("Service Unavailable")
    } else if code == 504 {
        Some("Gateway Timeout")
    } else if code == 505 {
        Some("HTTP Version Not Supported")
    } else {
        None
    }
}

/// The MIME type of each file extension that the server knows; any other
/// extension is served as `application/octet-stream`.
pub open spec fn mime_of(extension: Seq<char>) -> Seq<char> {
    if extension == "aac"@ {
        "audio/aac"@
    } else if extension == "abw"@ {
        "application/x-abiword"@
    } else if extension == "apk"@ {
        "application/vnd.android.package-archive"@
    } else if extension == "arc"@ {
        "application/x-freearc"@
    } else if extension == "avi"@ {
        "video/x-msvideo"@
    } else if extension == "avif"@ {
        "image/avif"@
    } else if extension == "azw"@ {
        "application/vnd.amazon.ebook"@
    } else if extension == "bin"@ {
        "application/octet-stream"@
    } else if extension == "bmp"@ {
        "image/bmp"@
    } else if extension == "bz"@ {
        "application/x-bzip"@
    } else if extension == "bz2"@ {
        "application/x-bzip2"@
    } else if extension == "cab"@ {
        "application/vnd.ms-cab-compressed"@
    } else if extension == "cda"@ {
        "application/x-cdf"@
    } else if extension == "csh"@ {
        "application/x-csh"@
    } else if extension == "css"@ {
        "text/css;charset=utf-8"@
    } else if extension == "csv"@ {
        "text/csv"@
    } else if extension == "crx"@ {
        "application/x-chrome-extension"@
    } else if extension == "deb"@ {
        "application/x-deb"@
    } else if extension == "doc"@ {
        "application/msword"@
    } else if extension == "docx"@ {
        "application/vnd.openxmlformats-officedocument.wordprocessingml.document"@
    } else if extension == "eot"@ {
        "application/vnd.ms-fontobject"@
    } else if extension == "epub"@ {
        "application/epub+zip"@
    } else if extension == "exe"@ {
        "application/x-msdownload"@
    } else if extension == "gif"@ {
        "image/gif"@
    } else if extension == "gz"@ {
        "application/gzip"@
    } else if extension == "htm"@ {
        "text/html;charset=utf-8"@
    } else if extension == "html"@ {
        "text/html;charset=utf-8"@
    } else if extension == "img"@ {
        "application/x-iso9660-image"@
    } else if extension == "ico"@ {
        "image/x-icon"@
    } else if extension == "ics"@ {
        "text/calendar"@
    } else if extension == "iso"@ {
        "application/x-iso9660-image"@
    } else if extension == "jar"@ {
        "application/java-archive"@
    } else if extension == "js"@ {
        "text/javascript;charset=utf-8"@
    } else if extension == "json"@ {
        "application/json"@
    } else if extension == "jsonld"@ {
        "application/ld+json"@
    } else if extension == "jpg"@ {
        "image/jpeg"@
    } else if extension == "jpeg"@ {
        "image/jpeg"@
    } else if extension == "mid"@ {
        "audio/x-midi"@
    } else if extension == "midi"@ {
        "audio/x-midi"@
    } else if extension == "mjs"@ {
        "text/javascript"@
    } else if extension == "mkv"@ {
        "video/x-matroska"@
    } else if extension == "mp3"@ {
        "audio/mpeg"@
    } else if extension == "mp4"@ {
        "video/mp4"@
    } else if extension == "mpeg"@ {
        "video/mpeg"@
    } else if extension == "mpkg"@ {
        "application/vnd.apple.installer+xml"@
    } else if extension == "msi"@ {
        "application/x-msdownload"@
    } else if extension == "odp"@ {
        "application/vnd.oasis.opendocument.presentation"@
    } else if extension == "ods"@ {
        "application/vnd.oasis.opendocument.spreadsheet"@
    } else if extension == "odt"@ {
        "application/vnd.oasis.opendocument.text"@
    } else if extension == "oga"@ {
        "audio/ogg"@
    } else if extension == "ogv"@ {
        "video/ogg"@
    } else if extension == "ogx"@ {
        "application/ogg"@
    } else if extension == "opus"@ {
        "audio/opus"@
    } else if extension == "otf"@ {
        "font/otf"@
    } else if extension == "pdf"@ {
        "application/pdf"@
    } else if extension == "png"@ {
        "image/png"@
    } else if extension == "php"@ {
        "application/x-httpd-php"@
    } else if extension == "ppt"@ {
        "application/vnd.ms-powerpoint"@
    } else if extension == "pptx"@ {
        "application/vnd.openxmlformats-officedocument.presentationml.presentation"@
    } else if extension == "rar"@ {
        "application/x-rar-compressed"@
    } else if extension == "rtf"@ {
        "application/rtf"@
    } else if extension == "rpm"@ {
        "application/x-rpm"@
    } else if extension == "sh"@ {
        "application/x-sh"@
    } else if extension == "svg"@ {
        "image/svg+xml"@
    } else if extension == "swf"@ {
        "application/x-shockwave-flash"@
    } else if extension == "tar"@ {
        "application/x-tar"@
    } else if extension == "tif"@ {
        "image/tiff"@
    } else if extension == "tiff"@ {
        "image/tiff"@
    } else if extension == "ts"@ {
        "video/mp2t"@
    } else if extension == "txt"@ {
        "text/plain"@
    } else if extension == "ttf"@ {
        "font/ttf"@
    } else if extension == "vsd"@ {
        "application/vnd.visio"@
    } else if extension == "wav"@ {
        "audio/wav"@
    } else if extension == "wasm"@ {
        "application/wasm"@
    } else if extension == "weba"@ {
        "audio/webm"@
    } else if extension == "webm"@ {
        "video/webm"@
    } else if extension == "webp"@ {
        "image/webp"@
    } else if extension == "woff"@ {
        "font/woff"@
    } else if extension == "woff2"@ {
        "font/woff2"@
    } else if extension == "xhtml"@ {
        "application/xhtml+xml"@
    } else if extension == "xls"@ {
        "application/vnd.ms-excel"@
    } else if extension == "xlsx"@ {
        "application/vnd.openxmlformats-officedocument.spreadsheetml.sheet"@
    } else if extension == "xml"@ {
        "text/xml"@
    } else if extension == "xpi"@ {
        "application/x-xpinstall"@
    } else if extension == "xul"@ {
        "application/vnd.mozilla.xul+xml"@
    } else if extension == "zip"@ {
        "application/zip"@
    } else if extension == "7z"@ {
        "application/x-7z-compressed"@
    } else if extension == "_"@ {
        "application/octet-stream"@
    } else {
        DEFAULT_MIME@
    }
}

/// Looks `extension` up in the MIME catalog.
pub fn get_mime(extension: &str) -> (mime: &'static str)
    ensures
        mime@ == mime_of(extension@),
{
    if str_eq(extension, "aac") {
        "audio/aac"
    } else if str_eq(extension, "abw") {
        "application/x-abiword"
    } else if str_eq(extension, "apk") {
        "application/vnd.android.package-archive"
    } else if str_eq(extension, "arc") {
        "application/x-freearc"
    } else if str_eq(extension, "avi") {
        "video/x-msvideo"
    } else if str_eq(extension, "avif") {
        "image/avif"
    } else if str_eq(extension, "azw") {
        "application/vnd.amazon.ebook"
    } else if str_eq(extension, "bin") {
        "application/octet-stream"
    } else if str_eq(extension, "bmp") {
        "image/bmp"
    } else if str_eq(extension, "bz") {
        "application/x-bzip"
    } else if str_eq(extension, "bz2") {
        "application/x-bzip2"
    } else if str_eq(extension, "cab") {
        "application/vnd.ms-cab-compressed"
    } else if str_eq(extension, "cda") {
        "application/x-cdf"
    } else if str_eq(extension, "csh") {
        "application/x-csh"
    } else if str_eq(extension, "css") {
        "text/css;charset=utf-8"
    } else if str_eq(extension, "csv") {
        "text/csv"
    } else if str_eq(extension, "crx") {
        "application/x-chrome-extension"
    } else if str_eq(extension, "deb") {
        "application/x-deb"
    } else if str_eq(extension, "doc") {
        "application/msword"
    } else if str_eq(extension, "docx") {
        "application/vnd.openxmlformats-officedocument.wordprocessingml.document"
    } else if str_eq(extension, "eot") {
        "application/vnd.ms-fontobject"
    } else if str_eq(extension, "epub") {
        "application/epub+zip"
    } else if str_eq(extension, "exe") {
        "application/x-msdownload"
    } else if str_eq(extension, "gif") {
        "image/gif"
    } else if str_eq(extension, "gz") {
        "application/gzip"
    } else if str_eq(extension, "htm") {
        "text/html;charset=utf-8"
    } else if str_eq(extension, "html") {
        "text/html;charset=utf-8"
    } else if str_eq(extension, "img") {
        "application/x-iso9660-image"
    } else if str_eq(extension, "ico") {
        "image/x-icon"
    } else if str_eq(extension, "ics") {
        "text/calendar"
    } else if str_eq(extension, "iso") {
        "application/x-iso9660-image"
    } else if str_eq(extension, "jar") {
        "application/java-archive"
    } else if str_eq(extension, "js") {
        "text/javascript;charset=utf-8"
    } else if str_eq(extension, "json") {
        "application/json"
    } else if str_eq(extension, "jsonld") {
        "application/ld+json"
    } else if str_eq(extension, "jpg") {
        "image/jpeg"
    } else if str_eq(extension, "jpeg") {
        "image/jpeg"
    } else if str_eq(extension, "mid") {
        "audio/x-midi"
    } else if str_eq(extension, "midi") {
        "audio/x-midi"
    } else if str_eq(extension, "mjs") {
        "text/javascript"
    } else if str_eq(extension, "mkv") {
        "video/x-matroska"
    } else if str_eq(extension, "mp3") {
        "audio/mpeg"
    } else if str_eq(extension, "mp4") {
        "video/mp4"
    } else if str_eq(extension, "mpeg") {
        "video/mpeg"
    } else if str_eq(extension, "mpkg") {
        "application/vnd.apple.installer+xml"
    } else if str_eq(extension, "msi") {
        "application/x-msdownload"
    } else if str_eq(extension, "odp") {
        "application/vnd.oasis.opendocument.presentation"
    } else if str_eq(extension, "ods") {
        "application/vnd.oasis.opendocument.spreadsheet"
    } else if str_eq(extension, "odt") {
        "application/vnd.oasis.opendocument.text"
    } else if str_eq(extension, "oga") {
        "audio/ogg"
    } else if str_eq(extension, "ogv") {
        "video/ogg"
    } else if str_eq(extension, "ogx") {
        "application/ogg"
    } else if str_eq(extension, "opus") {
        "audio/opus"
    } else if str_eq(extension, "otf") {
        "font/otf"
    } else if str_eq(extension, "pdf") {
        "application/pdf"
    } else if str_eq(extension, "png") {
        "image/png"
    } else if str_eq(extension, "php") {
        "application/x-httpd-php"
    } else if str_eq(extension, "ppt") {
        "application/vnd.ms-powerpoint"
    } else if str_eq(extension, "pptx") {
        "application/vnd.openxmlformats-officedocument.presentationml.presentation"
    } else if str_eq(extension, "rar") {
        "application/x-rar-compressed"
    } else if str_eq(extension, "rtf") {
        "application/rtf"
    } else if str_eq(extension, "rpm") {
        "application/x-rpm"
    } else if str_eq(extension, "sh") {
        "application/x-sh"
    } else if str_eq(extension, "svg") {
        "image/svg+xml"
    } else if str_eq(extension, "swf") {
        "application/x-shockwave-flash"
    } else if str_eq(extension, "tar") {
        "application/x-tar"
    } else if str_eq(extension, "tif") {
        "image/tiff"
    } else if str_eq(extension, "tiff") {
        "image/tiff"
    } else if str_eq(extension, "ts") {
        "video/mp2t"
    } else if str_eq(extension, "txt") {
        "text/plain"
    } else if str_eq(extension, "ttf") {
        "font/ttf"
    } else if str_eq(extension, "vsd") {
        "application/vnd.visio"
    } else if str_eq(extension, "wav") {
        "audio/wav"
    } else if str_eq(extension, "wasm") {
        "application/wasm"
    } else if str_eq(extension, "weba") {
        "audio/webm"
    } else if str_eq(extension, "webm") {
        "video/webm"
    } else if str_eq(extension, "webp") {
        "image/webp"
    } else if str_eq(extension, "woff") {
        "font/woff"
    } else if str_eq(extension, "woff2") {
        "font/woff2"
    } else if str_eq(extension, "xhtml") {
        "application/xhtml+xml"
    } else if str_eq(extension, "xls") {
        "application/vnd.ms-excel"
    } else if str_eq(extension, "xlsx") {
        "application/vnd.openxmlformats-officedocument.spreadsheetml.sheet"
    } else if str_eq(extension, "xml") {
        "text/xml"
    } else if str_eq(extension, "xpi") {
        "application/x-xpinstall"
    } else if str_eq(extension, "xul") {
        "application/vnd.mozilla.xul+xml"
    } else if str_eq(extension, "zip") {
        "application/zip"
    } else if str_eq(extension, "7z") {
        "application/x-7z-compressed"
    } else if str_eq(extension, "_") {
        "application/octet-stream"
    } else {
        DEFAULT_MIME
    }
}

} // verus!
