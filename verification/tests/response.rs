use std::io::Read;

use bytes::Bytes;
use chrono::{DateTime, Datelike};
use webserver::cache::FileCache;
use webserver::exception::Exception;
use webserver::param::{HttpEncoding, HttpRequestMethod};
use webserver::request::Request;
use webserver::response::{Response, Step};
use webserver::router::ResourceOutcome;

fn request(text: &str) -> Request {
    Request::try_from(&text.as_bytes().to_vec(), 0).unwrap()
}

fn done(step: Step) -> Response {
    match step {
        Step::Done(r) => r,
        _ => panic!("the response is not finished"),
    }
}

fn date_of(r: &Response) -> String {
    DateTime::from_timestamp(r.date(), 0).unwrap().to_rfc2822()
}

fn gunzip(stream: &[u8]) -> Vec<u8> {
    let mut out = Vec::new();
    flate2::read::GzDecoder::new(stream).read_to_end(&mut out).unwrap();
    out
}

fn inflate(stream: &[u8]) -> Vec<u8> {
    let mut out = Vec::new();
    flate2::read::DeflateDecoder::new(stream).read_to_end(&mut out).unwrap();
    out
}

fn split_wire(bytes: &[u8]) -> (String, Vec<u8>) {
    let at = bytes.windows(4).position(|w| w == b"\r\n\r\n").unwrap();
    (String::from_utf8(bytes[..at + 4].to_vec()).unwrap(), bytes[at + 4..].to_vec())
}

fn file(path: &str, size: u64) -> ResourceOutcome {
    ResourceOutcome::File { path: path.to_string(), size }
}

#[test]
fn blank_response_on_the_wire() {
    let mut r = Response::new();
    assert_eq!(r.status_code(), 200);
    assert_eq!(r.information(), "OK");
    r.stamp(0);
    assert_eq!(
        r.as_bytes(),
        b"HTTP/1.1 200 OK\r\nContent-Length: 0\r\nDate: Thu, 1 Jan 1970 00:00:00 +0000\r\nServer: eslzzyl-webserver\r\n\r\n"
            .to_vec()
    );
}

#[test]
fn at_dates_the_response() {
    let r = Response::at(1_700_000_000);
    assert_eq!(r.date(), 1_700_000_000);
    let (head, body) = split_wire(&r.as_bytes());
    assert!(head.contains("Date: Tue, 14 Nov 2023 22:13:20 +0000\r\n"));
    assert!(body.is_empty());
}

#[test]
fn new_reads_the_clock() {
    let before = chrono::Utc::now().timestamp();
    let r = Response::new();
    let after = chrono::Utc::now().timestamp();
    assert!(before <= r.date() && r.date() <= after);
    let mut again = Response::at(0);
    again.set_date();
    assert!(before <= again.date());
}

#[test]
fn date_is_left_out_beyond_the_calendar() {
    let expected_without =
        b"HTTP/1.1 200 OK\r\nContent-Length: 0\r\nServer: eslzzyl-webserver\r\n\r\n".to_vec();
    assert_eq!(Response::at(253_402_300_800).as_bytes(), expected_without);
    assert_eq!(Response::at(-62_167_219_201).as_bytes(), expected_without);
    assert_eq!(Response::at(i64::MAX).as_bytes(), expected_without);
    assert_eq!(Response::at(i64::MIN).as_bytes(), expected_without);
    let (last, _) = split_wire(&Response::at(253_402_300_799).as_bytes());
    assert!(last.contains("Date: Fri, 31 Dec 9999 23:59:59 +0000\r\n"));
    let (first, _) = split_wire(&Response::at(-62_167_219_200).as_bytes());
    assert!(first.contains("Date: Sat, 1 Jan 0000 00:00:00 +0000\r\n"));
}

#[test]
fn calendar_bounds_are_the_years_0_and_9999() {
    assert_eq!(DateTime::from_timestamp(-62_167_219_200, 0).unwrap().year(), 0);
    assert_eq!(DateTime::from_timestamp(-62_167_219_201, 0).unwrap().year(), -1);
    assert_eq!(DateTime::from_timestamp(253_402_300_799, 0).unwrap().year(), 9999);
    assert_eq!(DateTime::from_timestamp(253_402_300_800, 0).unwrap().year(), 10000);
}

#[test]
fn setters_change_one_field() {
    let mut r = Response::at(5);
    r.set_code(418);
    assert_eq!(r.status_code(), 418);
    assert_eq!(r.information(), "I'm a teapot");
    r.set_version();
    r.set_server_name();
    assert_eq!(r.date(), 5);
    let (head, _) = split_wire(&r.as_bytes());
    assert!(head.starts_with("HTTP/1.1 418 I'm a teapot\r\n"));
}

#[test]
fn carrying_writes_every_header_in_order() {
    let mut r = Response::carrying(
        200,
        "text/plain",
        Some(HttpEncoding::Deflate),
        Bytes::from(vec![1u8, 2, 3, 255, 0]),
    );
    r.stamp(86_400);
    let mut expected = b"HTTP/1.1 200 OK\r\nContent-Type: text/plain\r\nContent-Encoding: deflate\r\nContent-Length: 5\r\nDate: Fri, 2 Jan 1970 00:00:00 +0000\r\nServer: eslzzyl-webserver\r\n\r\n".to_vec();
    expected.extend_from_slice(&[1, 2, 3, 255, 0]);
    assert_eq!(r.as_bytes(), expected);
    assert_eq!(r.content_length(), 5);
    assert_eq!(r.content_type(), Some("text/plain"));
    assert_eq!(r.content_encoding(), Some(HttpEncoding::Deflate));
    assert_eq!(r.content().unwrap().as_ref(), &[1u8, 2, 3, 255, 0]);
}

#[test]
fn options_gets_204_without_body() {
    let cache = FileCache::from_capacity(2).unwrap();
    let req = request("OPTIONS * HTTP/1.1\r\nAccept-Encoding: gzip, deflate\r\n\r\n");
    for outcome in [
        ResourceOutcome::NotFound,
        file("/srv/a.txt", 3),
        ResourceOutcome::Directory { path: "/srv".to_string() },
    ] {
        let r = done(Response::from(&outcome, &req, 1, &cache));
        assert_eq!(r.status_code(), 204);
        assert_eq!(r.information(), "No Content");
        assert_eq!(r.content_length(), 0);
        assert!(r.content().is_none());
        assert!(r.content_type().is_none());
        assert!(r.content_encoding().is_none());
        assert_eq!(
            r.allow().unwrap(),
            &vec![HttpRequestMethod::Get, HttpRequestMethod::Head, HttpRequestMethod::Options]
        );
        let expected = format!(
            "HTTP/1.1 204 No Content\r\nContent-Length: 0\r\nDate: {}\r\nServer: eslzzyl-webserver\r\nAllow: GET, HEAD, OPTIONS\r\n\r\n",
            date_of(&r)
        );
        assert_eq!(r.as_bytes(), expected.into_bytes());
    }
}

#[test]
fn post_gets_405() {
    let cache = FileCache::from_capacity(2).unwrap();
    let req = request("POST /form HTTP/1.1\r\n\r\n");
    let r = done(Response::from(&file("/srv/form.html", 10), &req, 1, &cache));
    assert_eq!(r.status_code(), 405);
    assert_eq!(r.information(), "Method Not Allowed");
    assert_eq!(r.content_type(), Some("text/html;charset=utf-8"));
    assert!(r.content_encoding().is_none());
    assert!(r.allow().is_none());
    let body = String::from_utf8(r.content().unwrap().to_vec()).unwrap();
    assert!(body.contains("<h1>405</h1>"));
    assert!(body.contains("GET"));
    assert_eq!(r.content_length(), body.len() as u64);
}

#[test]
fn missing_path_gets_404_page() {
    let cache = FileCache::from_capacity(2).unwrap();
    let req = request("GET /nothing HTTP/1.1\r\n\r\n");
    let r = done(Response::from(&ResourceOutcome::NotFound, &req, 1, &cache));
    assert_eq!(r.status_code(), 404);
    assert_eq!(r.information(), "Not Found");
    assert_eq!(r.content_type(), Some("text/html;charset=utf-8"));
    let body = String::from_utf8(r.content().unwrap().to_vec()).unwrap();
    assert!(!body.is_empty());
    assert!(body.starts_with("<!DOCTYPE html>"));
    assert!(body.contains("<title>404</title>"));
    assert!(body.contains("<h1>404</h1>"));
    assert!(body.contains("你指定的网页无法找到"));
    assert!(body.ends_with("</html>"));
    let (head, sent) = split_wire(&r.as_bytes());
    assert!(head.starts_with("HTTP/1.1 404 Not Found\r\nContent-Type: text/html;charset=utf-8\r\n"));
    assert!(head.contains(&format!("Content-Length: {}\r\n", sent.len())));
    assert_eq!(sent, body.into_bytes());
}

#[test]
fn missing_path_page_is_compressed_as_negotiated() {
    let cache = FileCache::from_capacity(2).unwrap();
    let plain = done(Response::from(
        &ResourceOutcome::NotFound,
        &request("GET /nothing HTTP/1.1\r\n\r\n"),
        1,
        &cache,
    ));
    let page = plain.content().unwrap().to_vec();
    let gz = done(Response::from(
        &ResourceOutcome::NotFound,
        &request("GET /nothing HTTP/1.1\r\nAccept-Encoding: gzip, deflate, br\r\n\r\n"),
        1,
        &cache,
    ));
    assert_eq!(gz.status_code(), 404);
    assert_eq!(gz.content_encoding(), Some(HttpEncoding::Gzip));
    assert_eq!(gunzip(gz.content().unwrap()), page);
    assert_eq!(gz.content_length(), gz.content().unwrap().len() as u64);
    let (head, _) = split_wire(&gz.as_bytes());
    assert!(head.contains("Content-Encoding: gzip\r\n"));
    let de = Response::response_404(
        &request("GET /nothing HTTP/1.1\r\nAccept-Encoding: deflate\r\n\r\n"),
        1,
    );
    assert_eq!(de.content_encoding(), Some(HttpEncoding::Deflate));
    assert_eq!(inflate(de.content().unwrap()), page);
    let br = Response::response_404(
        &request("GET /nothing HTTP/1.1\r\nAccept-Encoding: br\r\n\r\n"),
        1,
    );
    assert!(br.content_encoding().is_none());
    assert_eq!(br.content().unwrap().to_vec(), page);
}

#[test]
fn response_500_reports_an_internal_error() {
    let r = Response::response_500(&request("GET / HTTP/1.1\r\n\r\n"), 9);
    assert_eq!(r.status_code(), 500);
    assert_eq!(r.information(), "Internal Server Error");
    let body = String::from_utf8(r.content().unwrap().to_vec()).unwrap();
    assert!(body.contains("<h1>500</h1>"));
    assert!(body.contains("服务器出现了一个内部错误"));
}

#[test]
fn status_page_without_a_note_shows_the_reason_phrase() {
    let r = Response::from_status_code(418, &Vec::new(), 0);
    assert_eq!(r.status_code(), 418);
    let body = String::from_utf8(r.content().unwrap().to_vec()).unwrap();
    assert!(body.contains("<p>I'm a teapot</p>"));
    let none = Response::from_status_code(204, &vec![HttpEncoding::Gzip], 0);
    assert_eq!(none.status_code(), 204);
    assert!(none.content().is_none());
    assert!(none.allow().is_none());
}

#[test]
fn head_states_the_size_of_the_file() {
    let mut cache = FileCache::from_capacity(2).unwrap();
    let req = request("HEAD /a.bin HTTP/1.1\r\nAccept-Encoding: gzip\r\n\r\n");
    let r = done(Response::from(&file("/srv/a.bin", 1024), &req, 1, &cache));
    assert_eq!(r.status_code(), 200);
    assert_eq!(r.content_length(), 1024);
    assert!(r.content_type().is_none());
    assert!(r.content_encoding().is_none());
    assert!(r.content().is_none());
    let expected = format!(
        "HTTP/1.1 200 OK\r\nContent-Length: 1024\r\nDate: {}\r\nServer: eslzzyl-webserver\r\n\r\n",
        date_of(&r)
    );
    assert_eq!(r.as_bytes(), expected.into_bytes());
    cache.push("/srv/a.bin", Bytes::from(vec![1u8; 7]));
    let again = done(Response::from(&file("/srv/a.bin", 1024), &req, 1, &cache));
    assert_eq!(again.content_length(), 1024);
    assert!(again.content().is_none());
}

#[test]
fn get_of_an_uncached_file_asks_for_its_bytes() {
    let cache = FileCache::from_capacity(2).unwrap();
    let req = request("GET /page.html HTTP/1.1\r\n\r\n");
    match Response::from(&file("/srv/page.html", 12), &req, 1, &cache) {
        Step::ReadFile { path, mime } => {
            assert_eq!(path, "/srv/page.html");
            assert_eq!(mime, "text/html;charset=utf-8");
        },
        _ => panic!("expected a file to read"),
    }
    match Response::from(&file("/srv/data.unknownext", 12), &req, 1, &cache) {
        Step::ReadFile { mime, .. } => assert_eq!(mime, "application/octet-stream"),
        _ => panic!("expected a file to read"),
    }
}

#[test]
fn file_is_compressed_once_and_then_served_from_the_cache() {
    let mut cache = FileCache::from_capacity(2).unwrap();
    let accepted = vec![HttpEncoding::Gzip, HttpEncoding::Br];
    let contents = b"body body body body body body".to_vec();
    let first =
        Response::from_file("/srv/a.txt", &accepted, 1, &mut cache, "text/plain", contents.clone());
    assert_eq!(first.status_code(), 200);
    assert_eq!(first.content_type(), Some("text/plain"));
    assert_eq!(first.content_encoding(), Some(HttpEncoding::Gzip));
    assert_eq!(gunzip(first.content().unwrap()), contents);
    assert_eq!(first.content_length(), first.content().unwrap().len() as u64);
    assert_eq!(cache.len(), 1);
    assert_eq!(cache.find("/srv/a.txt").unwrap(), first.content().unwrap());

    let req = request("GET /a.txt HTTP/1.1\r\nAccept-Encoding: gzip\r\n\r\n");
    let hit = done(Response::from(&file("/srv/a.txt", contents.len() as u64), &req, 2, &cache));
    assert_eq!(hit.content().unwrap(), first.content().unwrap());
    assert_eq!(hit.content_type(), Some("text/plain"));
    assert_eq!(hit.content_encoding(), Some(HttpEncoding::Gzip));

    let ignored = Response::from_file(
        "/srv/a.txt",
        &Vec::new(),
        3,
        &mut cache,
        "text/plain",
        b"other".to_vec(),
    );
    assert_eq!(ignored.content().unwrap(), first.content().unwrap());
    assert!(ignored.content_encoding().is_none());
    assert_eq!(cache.len(), 1);

    let (head, body) = split_wire(&hit.as_bytes());
    assert!(head.contains(&format!("Content-Length: {}\r\n", body.len())));
    assert_eq!(gunzip(&body), contents);
}

#[test]
fn file_without_encoding_is_served_as_it_is() {
    let mut cache = FileCache::from_capacity(1).unwrap();
    let contents = vec![0u8, 159, 146, 150, 255];
    let r = Response::from_file(
        "/srv/raw.bin",
        &vec![HttpEncoding::Br],
        1,
        &mut cache,
        "application/octet-stream",
        contents.clone(),
    );
    assert!(r.content_encoding().is_none());
    assert_eq!(r.content().unwrap().to_vec(), contents);
    let (head, body) = split_wire(&r.as_bytes());
    assert!(!head.contains("Content-Encoding"));
    assert!(head.contains("Content-Type: application/octet-stream\r\n"));
    assert!(head.contains("Content-Length: 5\r\n"));
    assert_eq!(body, contents);
}

#[test]
fn files_push_each_other_out_of_the_cache() {
    let mut cache = FileCache::from_capacity(1).unwrap();
    Response::from_file("/srv/a", &Vec::new(), 1, &mut cache, "text/plain", b"a".to_vec());
    Response::from_file("/srv/b", &Vec::new(), 1, &mut cache, "text/plain", b"b".to_vec());
    assert!(cache.find("/srv/a").is_none());
    assert_eq!(cache.find("/srv/b").unwrap().as_ref(), b"b");
}

#[test]
fn file_without_extension_is_served_as_octet_stream() {
    let mut cache = FileCache::from_capacity(4).unwrap();
    let req = request("GET /Makefile HTTP/1.1\r\n\r\n");
    for path in ["/srv/Makefile", "/srv/.profile", "/srv.d/Makefile"] {
        match Response::from(&file(path, 12), &req, 1, &cache) {
            Step::ReadFile { path: asked, mime } => {
                assert_eq!(asked, path);
                assert_eq!(mime, "application/octet-stream");
            },
            _ => panic!("expected a file to read"),
        }
    }
    cache.push("/srv/Makefile", Bytes::from(b"all:".to_vec()));
    let hit = done(Response::from(&file("/srv/Makefile", 4), &req, 1, &cache));
    assert_eq!(hit.status_code(), 200);
    assert_eq!(hit.content_type(), Some("application/octet-stream"));
    let head = done(Response::from(
        &file("/srv/Makefile", 4),
        &request("HEAD /Makefile HTTP/1.1\r\n\r\n"),
        1,
        &cache,
    ));
    assert_eq!(head.content_length(), 4);
    assert!(head.content().is_none());
}

#[test]
fn script_is_to_be_run() {
    let cache = FileCache::from_capacity(2).unwrap();
    match Response::from(&file("/srv/x.php", 1), &request("GET /x.php HTTP/1.1\r\n\r\n"), 1, &cache)
    {
        Step::RunScript { path, headonly } => {
            assert_eq!(path, "/srv/x.php");
            assert!(!headonly);
        },
        _ => panic!("expected a script to run"),
    }
    match Response::from(&file("/srv/x.php", 1), &request("HEAD /x.php HTTP/1.1\r\n\r\n"), 1, &cache)
    {
        Step::RunScript { headonly, .. } => assert!(headonly),
        _ => panic!("expected a script to run"),
    }
}

#[test]
fn script_output_becomes_the_body() {
    let accepted = vec![HttpEncoding::Deflate];
    let r = Response::from_script(Ok("<p>hi</p>".to_string()), &accepted, 1, false);
    assert_eq!(r.status_code(), 200);
    assert_eq!(r.content_type(), Some("text/html;charset=utf-8"));
    assert_eq!(r.content_encoding(), Some(HttpEncoding::Deflate));
    assert_eq!(inflate(r.content().unwrap()), b"<p>hi</p>".to_vec());
    let head = Response::from_script(Ok("<p>hi</p>".to_string()), &accepted, 1, true);
    assert_eq!(head.status_code(), 200);
    assert!(head.content().is_none());
    assert_eq!(head.content_length(), 0);
    let plain = Response::from_html("<p>hi</p>", &Vec::new(), 1, false);
    assert_eq!(plain.content().unwrap().as_ref(), b"<p>hi</p>");
}

#[test]
fn script_failure_gets_500() {
    for error in [Exception::PHPExecuteFailed, Exception::PHPCodeError] {
        for headonly in [false, true] {
            let r = Response::from_script(Err(error), &Vec::new(), 1, headonly);
            assert_eq!(r.status_code(), 500);
            assert!(r.content().is_some());
        }
    }
}

#[test]
fn headers_only_states_a_length_without_a_body() {
    let r = Response::headers_only(77);
    assert_eq!(r.content_length(), 77);
    assert!(r.content().is_none());
    let (head, body) = split_wire(&r.as_bytes());
    assert!(head.contains("Content-Length: 77\r\n"));
    assert!(body.is_empty());
}

#[test]
fn response_can_be_cloned_and_shown() {
    let mut r = Response::carrying(200, "text/plain", None, Bytes::from(b"abc".to_vec()));
    r.stamp(7);
    let copy = r.clone();
    assert_eq!(copy.as_bytes(), r.as_bytes());
    assert_eq!(copy.content().unwrap(), r.content().unwrap());
    assert!(format!("{:?}", copy).contains("status_code: 200"));
}

#[test]
fn miss_is_answered_with_the_compressed_contents_and_stored() {
    for accepted in [
        vec![HttpEncoding::Gzip],
        vec![HttpEncoding::Deflate],
        vec![HttpEncoding::Br],
        Vec::new(),
    ] {
        let mut cache = FileCache::from_capacity(3).unwrap();
        let contents = b"some contents, some contents, some contents".to_vec();
        let choice = webserver::codec::decide_encoding(&accepted);
        let expected = webserver::codec::compress(contents.clone(), choice).unwrap();
        let r = Response::from_file("/srv/f.txt", &accepted, 1, &mut cache, "text/plain", contents);
        assert_eq!(r.status_code(), 200);
        assert_eq!(r.content().unwrap().to_vec(), expected);
        assert_eq!(r.content_length(), expected.len() as u64);
        assert_eq!(r.content_encoding(), choice);
        assert_eq!(r.content_type(), Some("text/plain"));
        assert_eq!(cache.find("/srv/f.txt").unwrap().to_vec(), expected);
    }
}
