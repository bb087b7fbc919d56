//! Building a response for a parsed request and writing it out as bytes.
//!
//! A response is built in steps. `Response::from` looks at the request, at
//! what the path resolved to and at the cache, and either finishes the
//! response or says what has to be fetched first: the bytes of a file, the
//! entries of a directory, or the output of a script. The caller fetches it
//! and hands it to `from_file`, `from_dir` or `from_script`.

use vstd::prelude::*;
use vstd::string::*;
use vstd::utf8::*;
use bytes::Bytes;
use crate::cache::{
    distinct_keys, inserted, lemma_inserted_stays_bounded, lookup, Entry, FileCache,
};
use crate::clock::{format_date, in_calendar, rfc2822_of, unix_now};
use crate::codec::{compress, decide_encoding, negotiated, negotiated_stream};
use crate::exception::Exception;
use crate::pages::{HTML_MIME, NOTE_404, NOTE_405, NOTE_500};
use crate::param::{
    get_mime, known_status, mime_of, reason_phrase, status_text, HttpEncoding, HttpRequestMethod,
    HttpVersion, CRLF, DEFAULT_MIME, SERVER_NAME,
};
use crate::payload::{bytes_clone, bytes_from, bytes_slice, payload};
use crate::request::{Request, RequestView};
use crate::router::{extension, extension_of, OutcomeView, ResourceOutcome};
use crate::text::{decimal, push_decimal, str_eq};
use crate::util::{
    datable, entry_views, listing_order, listing_page, page_text, status_page, DirEntry,
    DirEntryView, HtmlBuilder,
};

verus! {

/// A response: the status line, the headers that may be sent, and the body.
#[derive(Debug, Clone)]
pub struct Response {
    version: HttpVersion,
    status_code: u16,
    information: String,
    content_type: Option<String>,
    content_length: u64,
    date: i64,
    content_encoding: Option<HttpEncoding>,
    server_name: String,
    allow: Option<Vec<HttpRequestMethod>>,
    content: Option<Bytes>,
}

/// A response as mathematical values. `date` counts seconds since 1970.
pub struct ResponseView {
    pub version: HttpVersion,
    pub status_code: u16,
    pub information: Seq<char>,
    pub content_type: Option<Seq<char>>,
    pub content_length: u64,
    pub date: i64,
    pub content_encoding: Option<HttpEncoding>,
    pub server_name: Seq<char>,
    pub allow: Option<Seq<HttpRequestMethod>>,
    pub content: Option<Seq<u8>>,
}

impl View for Response {
    type V = ResponseView;

    closed spec fn view(&self) -> ResponseView {
        ResponseView {
            version: self.version,
            status_code: self.status_code,
            information: self.information@,
            content_type: match self.content_type {
                Some(t) => Some(t@),
                None => None,
            },
            content_length: self.content_length,
            date: self.date,
            content_encoding: self.content_encoding,
            server_name: self.server_name@,
            allow: match self.allow {
                Some(a) => Some(a@),
                None => None,
            },
            content: match self.content {
                Some(b) => Some(payload(b)),
                None => None,
            },
        }
    }
}

impl ResponseView {
    /// What holds of every response that this library builds: the reason
    /// phrase is that of the status code; a response without a body names
    /// neither a content type nor a content encoding; and a response with a
    /// body states the length of that body.
    pub open spec fn wf(self) -> bool {
        &&& reason_phrase(self.status_code) == Some(self.information)
        &&& self.content is None ==> self.content_type is None && self.content_encoding is None
        &&& self.content matches Some(body) ==> self.content_length == body.len()
    }
}

/// The response that every other one starts from: status 200, no body, no
/// header beyond the length, the date and the server's name.
pub open spec fn blank(date: i64) -> ResponseView {
    ResponseView {
        version: HttpVersion::V1_1,
        status_code: 200,
        information: "OK"@,
        content_type: None,
        content_length: 0,
        date,
        content_encoding: None,
        server_name: SERVER_NAME@,
        allow: None,
        content: None,
    }
}

/// A response that carries `body` under the given status, type and
/// encoding label.
pub open spec fn with_body(
    code: u16,
    mime: Seq<char>,
    encoding: Option<HttpEncoding>,
    body: Seq<u8>,
    date: i64,
) -> ResponseView {
    ResponseView {
        status_code: code,
        information: reason_phrase(code)->0,
        content_type: Some(mime),
        content_length: body.len() as u64,
        content_encoding: encoding,
        content: Some(body),
        ..blank(date)
    }
}

/// A response with status 200 and no body that states the length `length`,
/// as the answer to a HEAD request does.
pub open spec fn bodiless(length: u64, date: i64) -> ResponseView {
    ResponseView { content_length: length, ..blank(date) }
}

/// What the page of a status code tells the reader beyond the code, for
/// the codes that have a text of their own.
pub open spec fn note_of(code: u16) -> Option<Seq<char>> {
    if code == 404 {
        Some(NOTE_404@)
    } else if code == 405 {
        Some(NOTE_405@)
    } else if code == 500 {
        Some(NOTE_500@)
    } else {
        None
    }
}

/// The page of a status code, in UTF-8.
pub open spec fn status_page_bytes(code: u16) -> Seq<u8> {
    encode_utf8(page_text(status_page(code, note_of(code))))
}

/// The response that reports the status `code` to a client that accepts
/// `accepted`: for 204 the bare status; for any other code the page of that
/// code as body, under the negotiated encoding, or, where the encoder fails
/// on the page, the page as it is and no encoding named.
pub open spec fn status_response(code: u16, accepted: Seq<HttpEncoding>, date: i64) -> ResponseView {
    if code == 204 {
        ResponseView { status_code: 204, information: reason_phrase(204)->0, ..blank(date) }
    } else {
        match negotiated_stream(status_page_bytes(code), accepted) {
            Some(body) => with_body(code, HTML_MIME@, negotiated(accepted), body, date),
            None => with_body(code, HTML_MIME@, None, status_page_bytes(code), date),
        }
    }
}

/// Whether `r` reports the status `code` to a client that accepts
/// `accepted`: it is the response that does so, with some date.
pub open spec fn reports(r: ResponseView, code: u16, accepted: Seq<HttpEncoding>) -> bool {
    r == status_response(code, accepted, r.date)
}

/// Whether `r` answers with the page `html`: nothing but the headers where
/// only those are asked for; else the page under the negotiated encoding,
/// or, where the encoder fails on the page, the report of status 500.
pub open spec fn answers_html(
    r: ResponseView,
    html: Seq<char>,
    accepted: Seq<HttpEncoding>,
    headonly: bool,
) -> bool {
    if headonly {
        r == blank(r.date)
    } else {
        match negotiated_stream(encode_utf8(html), accepted) {
            Some(body) => r == with_body(200, HTML_MIME@, negotiated(accepted), body, r.date),
            None => reports(r, 500, accepted),
        }
    }
}

/// Whether `r` answers with the output of a script: with the page it
/// wrote, or, where it could not be run or reported failure, with the
/// report of status 500.
pub open spec fn answers_script(
    r: ResponseView,
    output: Result<Seq<char>, Exception>,
    accepted: Seq<HttpEncoding>,
    headonly: bool,
) -> bool {
    match output {
        Ok(html) => answers_html(r, html, accepted, headonly),
        Err(_) => reports(r, 500, accepted),
    }
}

/// Whether `r` answers a GET request with the file at `path`, and `after`
/// is what the cache holds then.
///
/// Where the cache holds the path, its bytes are the body and the cache
/// stays as it is; they go out under the label negotiated for this request,
/// whatever encoding they were stored under. Else the contents go through
/// the negotiated encoding; the stream is the body and is stored in the
/// cache under the path. Only where the encoder fails on the contents is
/// the answer the report of status 500, and the cache then stays as it is.
pub open spec fn answers_file(
    r: ResponseView,
    path: Seq<char>,
    accepted: Seq<HttpEncoding>,
    mime: Seq<char>,
    contents: Seq<u8>,
    before: Seq<Entry>,
    capacity: nat,
    after: Seq<Entry>,
) -> bool {
    let choice = negotiated(accepted);
    match lookup(before, path) {
        Some(bytes) => after == before && r == with_body(200, mime, choice, bytes, r.date),
        None => match negotiated_stream(contents, accepted) {
            Some(body) => r == with_body(200, mime, choice, body, r.date) && after == inserted(
                before,
                capacity,
                path,
                body,
            ),
            None => reports(r, 500, accepted) && after == before,
        },
    }
}

/// Whether `r` answers with the listing of the directory at `path`, whose
/// entries are `entries` in the order of the listing, and `after` is what
/// the cache holds then.
///
/// Where the cache holds the path, its bytes are the body. Else the page of
/// the listing goes through the negotiated encoding; the stream is the body
/// and is stored in the cache under the path. Where only the headers are
/// asked for, the answer has no body and names no encoding, the page goes
/// through as it is, only its length is stated, and the cache stays as it
/// is. Only where the encoder fails on the page is the answer the report of
/// status 500, and the cache then stays as it is.
pub open spec fn answers_listing(
    r: ResponseView,
    path: Seq<char>,
    accepted: Seq<HttpEncoding>,
    headonly: bool,
    entries: Seq<DirEntryView>,
    before: Seq<Entry>,
    capacity: nat,
    after: Seq<Entry>,
) -> bool {
    let choice = negotiated(accepted);
    match lookup(before, path) {
        Some(bytes) => after == before && r == if headonly {
            bodiless(bytes.len() as u64, r.date)
        } else {
            with_body(200, HTML_MIME@, choice, bytes, r.date)
        },
        None => exists|stamps: Seq<Seq<char>>|
            stamps.len() == entries.len() && #[trigger] listed(
                r,
                encode_utf8(page_text(listing_page(path, entries, stamps))),
                path,
                accepted,
                headonly,
                before,
                capacity,
                after,
            ),
    }
}

/// Whether `r` answers with the listing page `page` of a directory that
/// the cache does not hold.
pub open spec fn listed(
    r: ResponseView,
    page: Seq<u8>,
    path: Seq<char>,
    accepted: Seq<HttpEncoding>,
    headonly: bool,
    before: Seq<Entry>,
    capacity: nat,
    after: Seq<Entry>,
) -> bool {
    if headonly {
        after == before && r == bodiless(page.len() as u64, r.date)
    } else {
        match negotiated_stream(page, accepted) {
            Some(body) => r == with_body(200, HTML_MIME@, negotiated(accepted), body, r.date)
                && after == inserted(before, capacity, path, body),
            None => reports(r, 500, accepted) && after == before,
        }
    }
}

/// What is to be done next for a request: the response is finished, or
/// something has to be fetched before it can be.
pub enum Step {
    /// The response is finished.
    Done(Response),
    /// The file at `path` is to be read; `from_file` takes its bytes and
    /// the type `mime`.
    ReadFile { path: String, mime: String },
    /// The entries of the directory at `path` are to be read; `from_dir`
    /// takes them.
    ReadDirectory { path: String, headonly: bool },
    /// The script at `path` is to be run; `from_script` takes what it
    /// wrote.
    RunScript { path: String, headonly: bool },
}

/// A step as mathematical values.
pub enum StepView {
    Done(ResponseView),
    ReadFile { path: Seq<char>, mime: Seq<char> },
    ReadDirectory { path: Seq<char>, headonly: bool },
    RunScript { path: Seq<char>, headonly: bool },
}

impl View for Step {
    type V = StepView;

    open spec fn view(&self) -> StepView {
        match self {
            Step::Done(r) => StepView::Done(r@),
            Step::ReadFile { path, mime } => StepView::ReadFile { path: path@, mime: mime@ },
            Step::ReadDirectory { path, headonly } => StepView::ReadDirectory {
                path: path@,
                headonly: *headonly,
            },
            Step::RunScript { path, headonly } => StepView::RunScript {
                path: path@,
                headonly: *headonly,
            },
        }
    }
}

/// The MIME type under which the file at `path` is served: that of its
/// extension, and `application/octet-stream` where it has none.
pub open spec fn mime_of_path(path: Seq<char>) -> Seq<char> {
    match extension_of(path) {
        Some(ext) => mime_of(ext),
        None => DEFAULT_MIME@,
    }
}

/// Whether `step` is what is to be done for `request`, given what its path
/// resolved to and what the cache holds.
///
/// A POST request is answered with the report of status 405 and an OPTIONS
/// request with status 204, whatever the path. For GET and HEAD the path
/// decides. A path that names nothing gets the report of status 404. A
/// directory is answered from the cache where the cache holds it, else its
/// entries are to be read. A file with the extension `php` is to be run.
/// For any other file a HEAD request is answered at once with the size of
/// the file as length; a GET request is answered from the cache where the
/// cache holds the file, else the file is to be read.
pub open spec fn decides(
    step: StepView,
    outcome: OutcomeView,
    request: RequestView,
    cache: Seq<Entry>,
) -> bool {
    let accepted = request.accept_encoding;
    let choice = negotiated(accepted);
    let headonly = request.method == HttpRequestMethod::Head;
    match request.method {
        HttpRequestMethod::Post => step matches StepView::Done(r) && reports(r, 405, accepted),
        HttpRequestMethod::Options => step matches StepView::Done(r) && r == options_response(
            r.date,
        ),
        _ => match outcome {
            OutcomeView::NotFound => step matches StepView::Done(r) && reports(r, 404, accepted),
            OutcomeView::Directory { path } => match lookup(cache, path) {
                Some(bytes) => step matches StepView::Done(r) && r == if headonly {
                    bodiless(bytes.len() as u64, r.date)
                } else {
                    with_body(200, HTML_MIME@, choice, bytes, r.date)
                },
                None => step == (StepView::ReadDirectory { path, headonly }),
            },
            OutcomeView::File { path, size } => if extension_of(path) == Some("php"@) {
                step == (StepView::RunScript { path, headonly })
            } else if headonly {
                step matches StepView::Done(r) && r == bodiless(size, r.date)
            } else {
                match lookup(cache, path) {
                    Some(bytes) => step matches StepView::Done(r) && r == with_body(
                        200,
                        mime_of_path(path),
                        choice,
                        bytes,
                        r.date,
                    ),
                    None => step == (StepView::ReadFile { path, mime: mime_of_path(path) }),
                }
            },
        },
    }
}

/// An OPTIONS request is answered with status 204, without a body, with a
/// length of zero and without a content type or a content encoding.
pub proof fn lemma_options_gets_no_content(
    step: StepView,
    outcome: OutcomeView,
    request: RequestView,
    cache: Seq<Entry>,
)
    requires
        decides(step, outcome, request, cache),
        request.method == HttpRequestMethod::Options,
    ensures
        step is Done,
        step->Done_0.status_code == 204,
        step->Done_0.content is None,
        step->Done_0.content_length == 0,
        step->Done_0.content_type is None,
        step->Done_0.content_encoding is None,
        type_line(step->Done_0) == Seq::<char>::empty(),
        encoding_line(step->Done_0) == Seq::<char>::empty(),
        wire(step->Done_0) == encode_utf8(head(step->Done_0)),
{
    assert(wire(step->Done_0) =~= encode_utf8(head(step->Done_0)));
}

/// A HEAD request for a file that is served as it is gets the size of the
/// file as content length, no content type, and nothing after the empty
/// line that ends the headers.
pub proof fn lemma_head_states_file_size(
    step: StepView,
    path: Seq<char>,
    size: u64,
    request: RequestView,
    cache: Seq<Entry>,
)
    requires
        decides(step, OutcomeView::File { path, size }, request, cache),
        request.method == HttpRequestMethod::Head,
        extension_of(path) != Some("php"@),
    ensures
        step is Done,
        step->Done_0.status_code == 200,
        step->Done_0.content_length == size,
        length_line(step->Done_0) == "Content-Length: "@ + decimal(size as nat) + CRLF@,
        type_line(step->Done_0) == Seq::<char>::empty(),
        wire(step->Done_0) == encode_utf8(head(step->Done_0)),
{
    assert(wire(step->Done_0) =~= encode_utf8(head(step->Done_0)));
}

/// A GET or HEAD request for a path that names nothing is answered with
/// status 404 and a page of HTML as body.
pub proof fn lemma_missing_path_gets_404(step: StepView, request: RequestView, cache: Seq<Entry>)
    requires
        decides(step, OutcomeView::NotFound, request, cache),
        request.method == HttpRequestMethod::Get || request.method == HttpRequestMethod::Head,
    ensures
        step is Done,
        step->Done_0.status_code == 404,
        step->Done_0.content_type == Some(HTML_MIME@),
        step->Done_0.content is Some,
{
}

/// A GET request for a file that the cache does not hold is answered with
/// the contents under the negotiated encoding, and the cache holds that
/// body under the path afterwards. This is so wherever the encoder gives a
/// stream for the contents.
pub proof fn lemma_miss_is_compressed_and_stored(
    r: ResponseView,
    path: Seq<char>,
    accepted: Seq<HttpEncoding>,
    mime: Seq<char>,
    contents: Seq<u8>,
    before: Seq<Entry>,
    capacity: nat,
    after: Seq<Entry>,
)
    requires
        answers_file(r, path, accepted, mime, contents, before, capacity, after),
        lookup(before, path) is None,
        negotiated_stream(contents, accepted) is Some,
        capacity >= 1,
        before.len() <= capacity,
        distinct_keys(before),
    ensures
        r.status_code == 200,
        r.content == negotiated_stream(contents, accepted),
        r.content_length == negotiated_stream(contents, accepted)->0.len() as u64,
        r.content_encoding == negotiated(accepted),
        r.content_type == Some(mime),
        lookup(after, path) == negotiated_stream(contents, accepted),
        after.len() <= capacity,
{
    lemma_inserted_stays_bounded(
        before,
        capacity,
        path,
        negotiated_stream(contents, accepted)->0,
    );
}

/// In a response with a body, the length that the head states is the
/// number of bytes that follow the head.
pub proof fn lemma_length_is_that_of_the_body(r: ResponseView)
    requires
        r.wf(),
        r.content is Some,
    ensures
        r.content_length == body_bytes(r).len(),
        length_line(r) == "Content-Length: "@ + decimal(body_bytes(r).len()) + CRLF@,
        wire(r).len() == encode_utf8(head(r)).len() + r.content_length,
{
}

/// The methods that the server answers.
pub open spec fn served_methods() -> Seq<HttpRequestMethod> {
    seq![HttpRequestMethod::Get, HttpRequestMethod::Head, HttpRequestMethod::Options]
}

/// The answer to an OPTIONS request: status 204, no body, and the methods
/// that the server answers.
pub open spec fn options_response(date: i64) -> ResponseView {
    ResponseView {
        status_code: 204,
        information: reason_phrase(204)->0,
        allow: Some(served_methods()),
        ..blank(date)
    }
}

/// The methods of a list, separated by a comma and a space.
pub open spec fn method_list(methods: Seq<HttpRequestMethod>) -> Seq<char>
    decreases methods.len(),
{
    if methods.len() == 0 {
        Seq::empty()
    } else if methods.len() == 1 {
        methods[0].text()
    } else {
        method_list(methods.drop_last()) + ", "@ + methods.last().text()
    }
}

/// The status line: the protocol, the code and the reason phrase.
pub open spec fn status_line(r: ResponseView) -> Seq<char> {
    "HTTP/"@ + r.version.text() + " "@ + decimal(r.status_code as nat) + " "@ + r.information
        + CRLF@
}

/// The `Content-Type` header, where the response names a type.
pub open spec fn type_line(r: ResponseView) -> Seq<char> {
    match r.content_type {
        Some(t) => "Content-Type: "@ + t + CRLF@,
        None => Seq::empty(),
    }
}

/// The `Content-Encoding` header, where the response names an encoding.
pub open spec fn encoding_line(r: ResponseView) -> Seq<char> {
    match r.content_encoding {
        Some(e) => "Content-Encoding: "@ + e.text() + CRLF@,
        None => Seq::empty(),
    }
}

/// The `Content-Length` header.
pub open spec fn length_line(r: ResponseView) -> Seq<char> {
    "Content-Length: "@ + decimal(r.content_length as nat) + CRLF@
}

/// The `Date` header, where the instant has an RFC 2822 form.
pub open spec fn date_line(r: ResponseView) -> Seq<char> {
    if in_calendar(r.date) {
        "Date: "@ + rfc2822_of(r.date) + CRLF@
    } else {
        Seq::empty()
    }
}

/// The `Server` header.
pub open spec fn server_line(r: ResponseView) -> Seq<char> {
    "Server: "@ + r.server_name + CRLF@
}

/// The `Allow` header, where the response lists methods.
pub open spec fn allow_line(r: ResponseView) -> Seq<char> {
    match r.allow {
        Some(a) => "Allow: "@ + method_list(a) + CRLF@,
        None => Seq::empty(),
    }
}

/// The status line and the headers of a response, with the empty line that
/// ends them.
///
/// After the status line come `Content-Type`, `Content-Encoding`,
/// `Content-Length`, `Date`, `Server` and `Allow`, in this order, each on a
/// line of its own and only where the response has a value for it.
pub open spec fn head(r: ResponseView) -> Seq<char> {
    status_line(r) + type_line(r) + encoding_line(r) + length_line(r) + date_line(r)
        + server_line(r) + allow_line(r) + CRLF@
}

/// The bytes of the body of a response; none where it has no body.
pub open spec fn body_bytes(r: ResponseView) -> Seq<u8> {
    match r.content {
        Some(b) => b,
        None => Seq::empty(),
    }
}

/// A response as it goes over the wire: the head in UTF-8, then the body
/// as it is.
pub open spec fn wire(r: ResponseView) -> Seq<u8> {
    encode_utf8(head(r)) + body_bytes(r)
}

/// Appends the methods of a list, separated by a comma and a space.
pub fn push_methods(text: &mut String, methods: &Vec<HttpRequestMethod>)
    ensures
        final(text)@ == old(text)@ + method_list(methods@),
{
    let ghost start = text@;
    let mut i: usize = 0;
    while i < methods.len()
        invariant
            i <= methods.len(),
            text@ == start + method_list(methods@.take(i as int)),
        decreases methods.len() - i,
    {
        if i > 0 {
            text.append(", ");
        }
        text.append(methods[i].as_str());
        proof {
            let now = methods@.take(i as int + 1);
            assert(now.drop_last() =~= methods@.take(i as int));
            assert(now.last() == methods@[i as int]);
            if i == 0 {
                assert(method_list(methods@.take(0)) =~= Seq::<char>::empty());
            }
            assert(text@ =~= start + method_list(now));
        }
        i += 1;
    }
    assert(methods@.take(methods.len() as int) =~= methods@);
}

impl Response {
    /// A response with status 200 and no body, dated now.
    pub fn new() -> (r: Response)
        ensures
            r@ == blank(r@.date),
            r@.wf(),
    {
        Response::at(unix_now())
    }

    /// A response with status 200 and no body, dated `date`.
    pub fn at(date: i64) -> (r: Response)
        ensures
            r@ == blank(date),
            r@.wf(),
    {
        Response {
            version: HttpVersion::V1_1,
            status_code: 200,
            information: String::from_str("OK"),
            content_type: None,
            content_length: 0,
            date,
            content_encoding: None,
            server_name: String::from_str(SERVER_NAME),
            allow: None,
            content: None,
        }
    }

    /// Dates the response `date`.
    pub fn stamp(&mut self, date: i64)
        ensures
            final(self)@ == (ResponseView { date, ..old(self)@ }),
    {
        self.date = date;
    }

    /// Dates the response now.
    pub fn set_date(&mut self)
        ensures
            final(self)@ == (ResponseView { date: final(self)@.date, ..old(self)@ }),
    {
        self.stamp(unix_now());
    }

    /// Sets the protocol version, of which there is only one.
    pub fn set_version(&mut self)
        ensures
            final(self)@ == (ResponseView { version: HttpVersion::V1_1, ..old(self)@ }),
    {
        self.version = HttpVersion::V1_1;
    }

    /// Sets the name that the `Server` header gives.
    pub fn set_server_name(&mut self)
        ensures
            final(self)@ == (ResponseView { server_name: SERVER_NAME@, ..old(self)@ }),
    {
        self.server_name = String::from_str(SERVER_NAME);
    }

    /// Sets the status code, and the reason phrase with it. The code must
    /// be one that the catalog knows.
    pub fn set_code(&mut self, code: u16)
        requires
            known_status(code),
        ensures
            final(self)@ == (ResponseView {
                status_code: code,
                information: reason_phrase(code)->0,
                ..old(self)@
            }),
    {
        match status_text(code) {
            Some(phrase) => {
                self.status_code = code;
                self.information = String::from_str(phrase);
            },
            None => {},
        }
    }

    /// A response that carries `body` under the given status, type and
    /// encoding label, dated now.
    pub fn carrying(code: u16, mime: &str, encoding: Option<HttpEncoding>, body: Bytes) -> (r:
        Response)
        requires
            known_status(code),
        ensures
            r@ == with_body(code, mime@, encoding, payload(body), r@.date),
            r@.wf(),
    {
        let mut r = Response::new();
        r.set_code(code);
        r.content_type = Some(String::from_str(mime));
        r.content_length = bytes_slice(&body).len() as u64;
        r.content_encoding = encoding;
        r.content = Some(body);
        r
    }

    /// A response with status 200 and no body that states the length
    /// `length`, dated now.
    pub fn headers_only(length: u64) -> (r: Response)
        ensures
            r@ == bodiless(length, r@.date),
            r@.wf(),
    {
        let mut r = Response::new();
        r.content_length = length;
        r
    }

    /// The page of a status code, in UTF-8.
    fn page_of(code: u16) -> (page: Vec<u8>)
        requires
            known_status(code),
        ensures
            page@ == status_page_bytes(code),
    {
        let note: Option<&str> = if code == 404 {
            Some(NOTE_404)
        } else if code == 405 {
            Some(NOTE_405)
        } else if code == 500 {
            Some(NOTE_500)
        } else {
            None
        };
        HtmlBuilder::from_status_code(code, note).build().as_str().as_bytes_vec()
    }

    /// The response that reports the status `code`, from what the encoder
    /// made of the page: the stream under the negotiated encoding, or, where
    /// it failed, the page as it is and no encoding named.
    pub fn status_from(
        code: u16,
        accept_encoding: &Vec<HttpEncoding>,
        packed: Result<Vec<u8>, Exception>,
    ) -> (r: Response)
        requires
            known_status(code),
            code != 204,
            match packed {
                Ok(out) => negotiated_stream(status_page_bytes(code), accept_encoding@) == Some(
                    out@,
                ),
                Err(_) => negotiated_stream(status_page_bytes(code), accept_encoding@) is None,
            },
        ensures
            r@ == status_response(code, accept_encoding@, r@.date),
            r@.wf(),
    {
        match packed {
            Ok(out) => Response::carrying(
                code,
                HTML_MIME,
                decide_encoding(accept_encoding),
                bytes_from(out),
            ),
            Err(_) => Response::carrying(code, HTML_MIME, None, bytes_from(Response::page_of(code))),
        }
    }

    /// The response that reports the status `code` to a client that
    /// accepts `accept_encoding`. The code must be one that the catalog
    /// knows.
    ///
    /// `id` names the connection in the caller's records and has no part in
    /// the result.
    pub fn from_status_code(code: u16, accept_encoding: &Vec<HttpEncoding>, id: u128) -> (r:
        Response)
        requires
            known_status(code),
        ensures
            reports(r@, code, accept_encoding@),
            r@.wf(),
    {
        if code == 204 {
            let mut r = Response::new();
            r.set_code(204);
            return r;
        }
        let choice = decide_encoding(accept_encoding);
        let packed = compress(Response::page_of(code), choice);
        Response::status_from(code, accept_encoding, packed)
    }

    /// The response for a path that names nothing.
    pub fn response_404(request: &Request, id: u128) -> (r: Response)
        ensures
            reports(r@, 404, request@.accept_encoding),
            r@.wf(),
    {
        Response::from_status_code(404, request.accept_encoding(), id)
    }

    /// The response for a failure inside the server.
    pub fn response_500(request: &Request, id: u128) -> (r: Response)
        ensures
            reports(r@, 500, request@.accept_encoding),
            r@.wf(),
    {
        Response::from_status_code(500, request.accept_encoding(), id)
    }

    /// The response that carries the page `html`. Where only the headers
    /// are asked for, the page is not looked at.
    pub fn from_html(html: &str, accept_encoding: &Vec<HttpEncoding>, id: u128, headonly: bool) -> (r:
        Response)
        ensures
            answers_html(r@, html@, accept_encoding@, headonly),
            r@.wf(),
    {
        if headonly {
            return Response::new();
        }
        let choice = decide_encoding(accept_encoding);
        match compress(html.as_bytes_vec(), choice) {
            Ok(out) => Response::carrying(200, HTML_MIME, choice, bytes_from(out)),
            Err(_) => Response::from_status_code(500, accept_encoding, id),
        }
    }

    /// The response to a request for a script, from what running it gave:
    /// the page it wrote, or the reason why there is none.
    pub fn from_script(
        output: Result<String, Exception>,
        accept_encoding: &Vec<HttpEncoding>,
        id: u128,
        headonly: bool,
    ) -> (r: Response)
        ensures
            answers_script(
                r@,
                match output {
                    Ok(html) => Ok(html@),
                    Err(e) => Err(e),
                },
                accept_encoding@,
                headonly,
            ),
            r@.wf(),
    {
        match output {
            Ok(html) => Response::from_html(html.as_str(), accept_encoding, id, headonly),
            Err(_) => Response::from_status_code(500, accept_encoding, id),
        }
    }

    /// The response to a GET request for the file at `path`, whose bytes
    /// are `contents` and whose type is `mime`. A body that the cache holds
    /// for the path is sent as it is; else the contents are compressed and
    /// the cache remembers the result.
    pub fn from_file(
        path: &str,
        accept_encoding: &Vec<HttpEncoding>,
        id: u128,
        cache: &mut FileCache,
        mime: &str,
        contents: Vec<u8>,
    ) -> (r: Response)
        requires
            old(cache).wf(),
        ensures
            final(cache).wf(),
            final(cache)@.capacity == old(cache)@.capacity,
            answers_file(
                r@,
                path@,
                accept_encoding@,
                mime@,
                contents@,
                old(cache)@.entries,
                old(cache)@.capacity,
                final(cache)@.entries,
            ),
            r@.wf(),
    {
        let choice = decide_encoding(accept_encoding);
        let held: Option<Bytes> = match cache.find(path) {
            Some(bytes) => Some(bytes_clone(bytes)),
            None => None,
        };
        match held {
            Some(bytes) => Response::carrying(200, mime, choice, bytes),
            None => match compress(contents, choice) {
                Ok(out) => {
                    let body = bytes_from(out);
                    cache.push(path, bytes_clone(&body));
                    Response::carrying(200, mime, choice, body)
                },
                Err(_) => Response::from_status_code(500, accept_encoding, id),
            },
        }
    }

    /// The response to a request for the directory at `path`, whose entries
    /// are `entries`. A body that the cache holds for the path is sent as it
    /// is; else the entries are put in order, the page that lists them is
    /// built and compressed, and the cache remembers the result.
    pub fn from_dir(
        path: &str,
        accept_encoding: &Vec<HttpEncoding>,
        id: u128,
        cache: &mut FileCache,
        headonly: bool,
        entries: &mut Vec<DirEntry>,
    ) -> (r: Response)
        requires
            old(cache).wf(),
            datable(entry_views(old(entries)@)),
        ensures
            final(cache).wf(),
            final(cache)@.capacity == old(cache)@.capacity,
            entry_views(final(entries)@) == if lookup(old(cache)@.entries, path@) is None {
                listing_order(entry_views(old(entries)@))
            } else {
                entry_views(old(entries)@)
            },
            answers_listing(
                r@,
                path@,
                accept_encoding@,
                headonly,
                entry_views(final(entries)@),
                old(cache)@.entries,
                old(cache)@.capacity,
                final(cache)@.entries,
            ),
            r@.wf(),
    {
        let choice = decide_encoding(accept_encoding);
        let held: Option<Bytes> = match cache.find(path) {
            Some(bytes) => Some(bytes_clone(bytes)),
            None => None,
        };
        match held {
            Some(bytes) => {
                if headonly {
                    Response::headers_only(bytes_slice(&bytes).len() as u64)
                } else {
                    Response::carrying(200, HTML_MIME, choice, bytes)
                }
            },
            None => {
                let page = HtmlBuilder::from_dir(path, entries).build().as_str().as_bytes_vec();
                let ghost shown = page@;
                let r = if headonly {
                    Response::headers_only(page.len() as u64)
                } else {
                    match compress(page, choice) {
                        Ok(out) => {
                            let body = bytes_from(out);
                            cache.push(path, bytes_clone(&body));
                            Response::carrying(200, HTML_MIME, choice, body)
                        },
                        Err(_) => Response::from_status_code(500, accept_encoding, id),
                    }
                };
                proof {
                    let stamps = choose|stamps: Seq<Seq<char>>|
                        stamps.len() == entries@.len() && shown == encode_utf8(
                            page_text(
                                #[trigger] listing_page(path@, entry_views(entries@), stamps),
                            ),
                        );
                    assert(listed(
                        r@,
                        encode_utf8(page_text(listing_page(path@, entry_views(entries@), stamps))),
                        path@,
                        accept_encoding@,
                        headonly,
                        old(cache)@.entries,
                        old(cache)@.capacity,
                        cache@.entries,
                    ));
                }
                r
            },
        }
    }

    /// Decides what is to be done for `request`, whose path resolved to
    /// `outcome`. The cache is only looked at.
    ///
    /// `id` names the connection in the caller's records and has no part in
    /// the result.
    pub fn from(outcome: &ResourceOutcome, request: &Request, id: u128, cache: &FileCache) -> (step:
        Step)
        requires
            cache.wf(),
        ensures
            decides(step@, outcome@, request@, cache@.entries),
            step matches Step::Done(r) ==> r@.wf(),
    {
        let accepted = request.accept_encoding();
        let method = request.method();
        if method == HttpRequestMethod::Post {
            return Step::Done(Response::from_status_code(405, accepted, id));
        }
        if method == HttpRequestMethod::Options {
            let mut r = Response::from_status_code(204, accepted, id);
            let allowed = vec![
                HttpRequestMethod::Get,
                HttpRequestMethod::Head,
                HttpRequestMethod::Options,
            ];
            assert(allowed@ =~= served_methods());
            r.allow = Some(allowed);
            return Step::Done(r);
        }
        let headonly = method == HttpRequestMethod::Head;
        match outcome {
            ResourceOutcome::NotFound => Step::Done(Response::response_404(request, id)),
            ResourceOutcome::Directory { path } => {
                let held: Option<Bytes> = match cache.find(path.as_str()) {
                    Some(bytes) => Some(bytes_clone(bytes)),
                    None => None,
                };
                match held {
                    Some(bytes) => if headonly {
                        Step::Done(Response::headers_only(bytes_slice(&bytes).len() as u64))
                    } else {
                        Step::Done(
                            Response::carrying(200, HTML_MIME, decide_encoding(accepted), bytes),
                        )
                    },
                    None => Step::ReadDirectory { path: path.clone(), headonly },
                }
            },
            ResourceOutcome::File { path, size } => {
                let ext = extension(path.as_str());
                let mime: &str = match &ext {
                    Some(e) => {
                        if str_eq(e.as_str(), "php") {
                            return Step::RunScript { path: path.clone(), headonly };
                        }
                        get_mime(e.as_str())
                    },
                    None => DEFAULT_MIME,
                };
                if headonly {
                    return Step::Done(Response::headers_only(*size));
                }
                let held: Option<Bytes> = match cache.find(path.as_str()) {
                    Some(bytes) => Some(bytes_clone(bytes)),
                    None => None,
                };
                match held {
                    Some(bytes) => Step::Done(
                        Response::carrying(200, mime, decide_encoding(accepted), bytes),
                    ),
                    None => Step::ReadFile { path: path.clone(), mime: String::from_str(mime) },
                }
            },
        }
    }

    /// Appends the status line.
    fn push_status_line(&self, text: &mut String)
        ensures
            final(text)@ == old(text)@ + status_line(self@),
    {
        text.append("HTTP/");
        text.append(self.version.as_str());
        text.append(" ");
        push_decimal(text, self.status_code as u64);
        text.append(" ");
        text.append(self.information.as_str());
        text.append(CRLF);
        assert(text@ =~= old(text)@ + status_line(self@));
    }

    /// Appends the headers that describe the body.
    fn push_content_lines(&self, text: &mut String)
        ensures
            final(text)@ == old(text)@ + type_line(self@) + encoding_line(self@) + length_line(
                self@,
            ),
    {
        match &self.content_type {
            Some(t) => {
                text.append("Content-Type: ");
                text.append(t.as_str());
                text.append(CRLF);
            },
            None => {},
        }
        assert(text@ =~= old(text)@ + type_line(self@));
        let ghost typed = text@;
        match self.content_encoding {
            Some(e) => {
                text.append("Content-Encoding: ");
                text.append(e.as_str());
                text.append(CRLF);
            },
            None => {},
        }
        assert(text@ =~= typed + encoding_line(self@));
        let ghost encoded = text@;
        text.append("Content-Length: ");
        push_decimal(text, self.content_length);
        text.append(CRLF);
        assert(text@ =~= encoded + length_line(self@));
    }

    /// Appends the headers that describe the server.
    fn push_server_lines(&self, text: &mut String)
        ensures
            final(text)@ == old(text)@ + date_line(self@) + server_line(self@) + allow_line(self@),
    {
        match format_date(self.date) {
            Some(d) => {
                text.append("Date: ");
                text.append(d.as_str());
                text.append(CRLF);
            },
            None => {},
        }
        assert(text@ =~= old(text)@ + date_line(self@));
        let ghost dated = text@;
        text.append("Server: ");
        text.append(self.server_name.as_str());
        text.append(CRLF);
        assert(text@ =~= dated + server_line(self@));
        let ghost named = text@;
        match &self.allow {
            Some(a) => {
                text.append("Allow: ");
                push_methods(text, a);
                text.append(CRLF);
            },
            None => {},
        }
        assert(text@ =~= named + allow_line(self@));
    }

    /// Writes the response out as it goes over the wire.
    pub fn as_bytes(&self) -> (bytes: Vec<u8>)
        ensures
            bytes@ == wire(self@),
    {
        let mut text = String::new();
        self.push_status_line(&mut text);
        self.push_content_lines(&mut text);
        self.push_server_lines(&mut text);
        text.append(CRLF);
        assert(text@ =~= head(self@));
        let mut bytes = text.as_str().as_bytes_vec();
        match &self.content {
            Some(b) => {
                bytes.extend_from_slice(bytes_slice(b));
            },
            None => {},
        }
        assert(bytes@ =~= wire(self@));
        bytes
    }

    /// The status code.
    pub fn status_code(&self) -> (code: u16)
        ensures
            code == self@.status_code,
    {
        self.status_code
    }

    /// The reason phrase that goes with the status code.
    pub fn information(&self) -> (phrase: &str)
        ensures
            phrase@ == self@.information,
    {
        self.information.as_str()
    }

    /// The length that the `Content-Length` header states.
    pub fn content_length(&self) -> (length: u64)
        ensures
            length == self@.content_length,
    {
        self.content_length
    }

    /// The instant that the response is dated, in seconds since 1970.
    pub fn date(&self) -> (date: i64)
        ensures
            date == self@.date,
    {
        self.date
    }

    /// The content type, where the response has a body.
    pub fn content_type(&self) -> (mime: Option<&str>)
        ensures
            match mime {
                Some(m) => self@.content_type == Some(m@),
                None => self@.content_type is None,
            },
    {
        match &self.content_type {
            Some(t) => Some(t.as_str()),
            None => None,
        }
    }

    /// The encoding that the body is labelled with.
    pub fn content_encoding(&self) -> (encoding: Option<HttpEncoding>)
        ensures
            encoding == self@.content_encoding,
    {
        self.content_encoding
    }

    /// The methods that the `Allow` header lists.
    pub fn allow(&self) -> (methods: Option<&Vec<HttpRequestMethod>>)
        ensures
            match methods {
                Some(m) => self@.allow == Some(m@),
                None => self@.allow is None,
            },
    {
        match &self.allow {
            Some(a) => Some(a),
            None => None,
        }
    }

    /// The body.
    pub fn content(&self) -> (body: Option<&Bytes>)
        ensures
            match body {
                Some(b) => self@.content == Some(payload(*b)),
                None => self@.content is None,
            },
    {
        match &self.content {
            Some(b) => Some(b),
            None => None,
        }
    }
}

} // verus!
