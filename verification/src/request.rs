//! Parsing a raw request buffer into a structured request.

use vstd::prelude::*;
use vstd::string::*;
use vstd::utf8::*;
use std::str::Utf8Error;
use crate::exception::Exception;
use crate::param::{HttpEncoding, HttpRequestMethod, HttpVersion, CRLF};
use crate::text::{
    contains, eq_ignore_case, find, find_from, has, has_prefix_ignore_case,
    lemma_find_from_is_first, pieces_view, same_ignore_case, slice_of, split, split_text,
    starts_with_ignore_case, string_from, to_chars,
};

verus! {

/// `std::str::Utf8Error`, which decoding fails with, carried as it is.
#[verifier::external_type_specification]
#[verifier::external_body]
pub struct ExUtf8Error(Utf8Error);

/// `std::str::from_utf8`: succeeds exactly on well-formed UTF-8, and the
/// string it returns then holds the characters that the bytes encode.
#[verifier::external_body]
pub(crate) fn text_of(bytes: &[u8]) -> (res: Result<&str, Utf8Error>)
    ensures
        res is Ok <==> valid_utf8(bytes@),
        res matches Ok(s) ==> s@ == decode_utf8(bytes@),
{
    std::str::from_utf8(bytes)
}

/// A parsed request. It is built once from the bytes of a connection and
/// only read afterwards.
#[derive(Debug, Clone)]
pub struct Request {
    method: HttpRequestMethod,
    path: String,
    version: HttpVersion,
    user_agent: String,
    accept_encoding: Vec<HttpEncoding>,
}

/// What a request says, as mathematical values.
pub struct RequestView {
    pub method: HttpRequestMethod,
    pub path: Seq<char>,
    pub version: HttpVersion,
    pub user_agent: Seq<char>,
    pub accept_encoding: Seq<HttpEncoding>,
}

impl View for Request {
    type V = RequestView;

    closed spec fn view(&self) -> RequestView {
        RequestView {
            method: self.method,
            path: self.path@,
            version: self.version,
            user_agent: self.user_agent@,
            accept_encoding: self.accept_encoding@,
        }
    }
}

/// The method that a token of the request line names, letters compared
/// without regard to case.
pub open spec fn method_of(token: Seq<char>) -> Option<HttpRequestMethod> {
    if eq_ignore_case(token, "GET"@) {
        Some(HttpRequestMethod::Get)
    } else if eq_ignore_case(token, "HEAD"@) {
        Some(HttpRequestMethod::Head)
    } else if eq_ignore_case(token, "OPTIONS"@) {
        Some(HttpRequestMethod::Options)
    } else if eq_ignore_case(token, "POST"@) {
        Some(HttpRequestMethod::Post)
    } else {
        None
    }
}

/// The version that a token of the request line names.
pub open spec fn version_of(token: Seq<char>) -> Option<HttpVersion> {
    if eq_ignore_case(token, "HTTP/1.1"@) {
        Some(HttpVersion::V1_1)
    } else {
        None
    }
}

/// The index of the first line, from line `from` on, that begins with
/// `name`, letters compared without regard to case.
pub open spec fn header_index(lines: Seq<Seq<char>>, name: Seq<char>, from: int) -> Option<int>
    decreases lines.len() + 1 - from,
{
    if from < 0 || from >= lines.len() {
        None
    } else if starts_with_ignore_case(lines[from], name) {
        Some(from)
    } else {
        header_index(lines, name, from + 1)
    }
}

/// The value of a header line: what follows the first `": "` in it.
pub open spec fn value_of(line: Seq<char>) -> Option<Seq<char>> {
    match find_from(line, ": "@, 0) {
        Some(i) => Some(line.subrange(i + 2, line.len() as int)),
        None => None,
    }
}

/// The value of the header `name` among the lines after the request line.
/// The first line that begins with `name` decides: `Ok(None)` where there is
/// no such line, an error where that line holds no `": "`.
pub open spec fn header(lines: Seq<Seq<char>>, name: Seq<char>) -> Result<
    Option<Seq<char>>,
    Exception,
> {
    match header_index(lines, name, 1) {
        None => Ok(None),
        Some(i) => match value_of(lines[i]) {
            Some(v) => Ok(Some(v)),
            None => Err(Exception::MalformedRequest),
        },
    }
}

/// The encodings whose tokens stand somewhere in the value of an
/// `Accept-Encoding` header, in the order gzip, deflate, br.
pub open spec fn encodings_in(value: Seq<char>) -> Seq<HttpEncoding> {
    (if contains(value, "gzip"@) {
        seq![HttpEncoding::Gzip]
    } else {
        seq![]
    }) + (if contains(value, "deflate"@) {
        seq![HttpEncoding::Deflate]
    } else {
        seq![]
    }) + (if contains(value, "br"@) {
        seq![HttpEncoding::Br]
    } else {
        seq![]
    })
}

/// What the text of a request parses to.
///
/// The text is split into lines at each CRLF. The first line is split at
/// each single space and must give at least three tokens: method, path and
/// version. The lines after it are searched for a `User-Agent` and an
/// `Accept-Encoding` header; lacking either is no error.
pub open spec fn parse_text(text: Seq<char>) -> Result<RequestView, Exception> {
    let lines = split(text, CRLF@);
    let tokens = split(lines[0], " "@);
    if tokens.len() < 3 {
        Err(Exception::MalformedRequest)
    } else if method_of(tokens[0]) is None {
        Err(Exception::UnSupportedRequestMethod)
    } else if version_of(tokens[2]) is None {
        Err(Exception::UnsupportedHttpVersion)
    } else {
        match (header(lines, "user-agent"@), header(lines, "accept-encoding"@)) {
            (Ok(agent), Ok(accepted)) => Ok(
                RequestView {
                    method: method_of(tokens[0])->0,
                    path: tokens[1],
                    version: version_of(tokens[2])->0,
                    user_agent: match agent {
                        Some(v) => v,
                        None => Seq::empty(),
                    },
                    accept_encoding: match accepted {
                        Some(v) => encodings_in(v),
                        None => Seq::empty(),
                    },
                },
            ),
            _ => Err(Exception::MalformedRequest),
        }
    }
}

/// What a request buffer parses to: the bytes must be UTF-8, and the text
/// they encode is parsed by `parse_text`.
pub open spec fn parse(bytes: Seq<u8>) -> Result<RequestView, Exception> {
    if valid_utf8(bytes) {
        parse_text(decode_utf8(bytes))
    } else {
        Err(Exception::RequestIsNotUtf8)
    }
}

/// The outcome of a parse, with the request taken by its view.
pub open spec fn outcome_view(res: Result<Request, Exception>) -> Result<RequestView, Exception> {
    match res {
        Ok(r) => Ok(r@),
        Err(e) => Err(e),
    }
}

/// Reads the method off a token of the request line.
fn read_method(token: &Vec<char>) -> (method: Option<HttpRequestMethod>)
    ensures
        method == method_of(token@),
{
    if same_ignore_case(token, &to_chars("GET")) {
        Some(HttpRequestMethod::Get)
    } else if same_ignore_case(token, &to_chars("HEAD")) {
        Some(HttpRequestMethod::Head)
    } else if same_ignore_case(token, &to_chars("OPTIONS")) {
        Some(HttpRequestMethod::Options)
    } else if same_ignore_case(token, &to_chars("POST")) {
        Some(HttpRequestMethod::Post)
    } else {
        None
    }
}

/// Reads the version off a token of the request line.
fn read_version(token: &Vec<char>) -> (version: Option<HttpVersion>)
    ensures
        version == version_of(token@),
{
    if same_ignore_case(token, &to_chars("HTTP/1.1")) {
        Some(HttpVersion::V1_1)
    } else {
        None
    }
}

/// Looks the header `name` up among the lines after the request line.
fn read_header(lines: &Vec<Vec<char>>, name: &str) -> (value: Result<Option<Vec<char>>, Exception>)
    ensures
        match value {
            Ok(Some(v)) => header(pieces_view(lines@), name@) == Ok::<
                Option<Seq<char>>,
                Exception,
            >(Some(v@)),
            Ok(None) => header(pieces_view(lines@), name@) == Ok::<Option<Seq<char>>, Exception>(
                None,
            ),
            Err(e) => header(pieces_view(lines@), name@) == Err::<Option<Seq<char>>, Exception>(e),
        },
{
    let wanted = to_chars(name);
    let delimiter = to_chars(": ");
    let ghost all = pieces_view(lines@);
    let mut i: usize = 1;
    while i < lines.len()
        invariant
            1 <= i,
            all == pieces_view(lines@),
            wanted@ == name@,
            delimiter@ == ": "@,
            header_index(all, name@, 1) == header_index(all, name@, i as int),
        decreases lines.len() - i,
    {
        if has_prefix_ignore_case(&lines[i], &wanted) {
            proof {
                reveal_strlit(": ");
            }
            return match find(&lines[i], &delimiter, 0) {
                Some(at) => {
                    let line = &lines[i];
                    let end: usize = line.len();
                    proof {
                        lemma_find_from_is_first(line@, ": "@, 0);
                    }
                    Ok(Some(slice_of(line, at + 2, end)))
                },
                None => Err(Exception::MalformedRequest),
            };
        }
        i += 1;
    }
    Ok(None)
}

/// Collects the encodings that the value of an `Accept-Encoding` header
/// names.
fn read_encodings(value: &Vec<char>) -> (accepted: Vec<HttpEncoding>)
    ensures
        accepted@ == encodings_in(value@),
{
    let mut accepted: Vec<HttpEncoding> = Vec::new();
    if has(value, &to_chars("gzip")) {
        accepted.push(HttpEncoding::Gzip);
    }
    if has(value, &to_chars("deflate")) {
        accepted.push(HttpEncoding::Deflate);
    }
    if has(value, &to_chars("br")) {
        accepted.push(HttpEncoding::Br);
    }
    assert(accepted@ =~= encodings_in(value@));
    accepted
}

impl Request {
    /// Parses the bytes that a client sent.
    ///
    /// `id` names the connection in the caller's records and has no part in
    /// the result.
    pub fn try_from(buffer: &Vec<u8>, id: u128) -> (res: Result<Request, Exception>)
        ensures
            outcome_view(res) == parse(buffer@),
    {
        match text_of(buffer.as_slice()) {
            Ok(text) => Request::from_text(text),
            Err(_) => Err(Exception::RequestIsNotUtf8),
        }
    }

    /// Parses the text of a request.
    pub fn from_text(text: &str) -> (res: Result<Request, Exception>)
        ensures
            outcome_view(res) == parse_text(text@),
    {
        let chars = to_chars(text);
        proof {
            reveal_strlit("\r\n");
            reveal_strlit(" ");
        }
        let lines = split_text(&chars, &to_chars(CRLF));
        let tokens = split_text(&lines[0], &to_chars(" "));
        let ghost all = split(text@, CRLF@);
        let ghost words = split(all[0], " "@);
        assert(pieces_view(lines@) == all);
        assert(lines[0]@ == all[0]);
        assert(pieces_view(tokens@) == words);
        assert(tokens.len() == words.len());
        if tokens.len() < 3 {
            return Err(Exception::MalformedRequest);
        }
        let method = match read_method(&tokens[0]) {
            Some(m) => m,
            None => {
                return Err(Exception::UnSupportedRequestMethod);
            },
        };
        let version = match read_version(&tokens[2]) {
            Some(v) => v,
            None => {
                return Err(Exception::UnsupportedHttpVersion);
            },
        };
        assert(tokens[0]@ == words[0]);
        assert(tokens[1]@ == words[1]);
        assert(tokens[2]@ == words[2]);
        let agent = read_header(&lines, "user-agent");
        let accepted = read_header(&lines, "accept-encoding");
        match (agent, accepted) {
            (Ok(agent), Ok(accepted)) => {
                let user_agent = match agent {
                    Some(v) => {
                        assert(v@.subrange(0, v@.len() as int) =~= v@);
                        string_from(&v, 0, v.len())
                    },
                    None => String::new(),
                };
                let accept_encoding = match accepted {
                    Some(v) => read_encodings(&v),
                    None => Vec::new(),
                };
                let path = string_from(&tokens[1], 0, tokens[1].len());
                assert(tokens[1]@.subrange(0, tokens[1]@.len() as int) =~= tokens[1]@);
                Ok(Request { method, path, version, user_agent, accept_encoding })
            },
            _ => Err(Exception::MalformedRequest),
        }
    }

    /// The protocol version of the request.
    pub fn version(&self) -> (v: &HttpVersion)
        ensures
            *v == self@.version,
    {
        &self.version
    }

    /// The path that was asked for, as the client wrote it.
    pub fn path(&self) -> (p: &str)
        ensures
            p@ == self@.path,
    {
        self.path.as_str()
    }

    /// The method of the request.
    pub fn method(&self) -> (m: HttpRequestMethod)
        ensures
            m == self@.method,
    {
        self.method
    }

    /// The `User-Agent` of the client, empty where it sent none.
    pub fn user_agent(&self) -> (a: &str)
        ensures
            a@ == self@.user_agent,
    {
        self.user_agent.as_str()
    }

    /// The encodings that the client accepts; none means the body must go
    /// out as it is.
    pub fn accept_encoding(&self) -> (e: &Vec<HttpEncoding>)
        ensures
            e@ == self@.accept_encoding,
    {
        &self.accept_encoding
    }
}

} // verus!
