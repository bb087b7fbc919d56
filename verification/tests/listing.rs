use std::io::Read;

use bytes::Bytes;
use chrono::{DateTime, Local};
use webserver::cache::FileCache;
use webserver::param::HttpEncoding;
use webserver::request::Request;
use webserver::response::{Response, Step};
use webserver::router::ResourceOutcome;
use webserver::exception::Exception;
use webserver::util::{
    entry_before, handle_php, name_before, sort_dir_entries, DirEntry, HtmlBuilder, ScriptRun,
};

fn entry(name: &str, is_dir: bool, size: u64, modified: i64) -> DirEntry {
    DirEntry { name: name.to_string(), is_dir, size, modified }
}

fn names(entries: &Vec<DirEntry>) -> Vec<String> {
    entries.iter().map(|e| e.name.clone()).collect()
}

fn local(seconds: i64) -> String {
    DateTime::from_timestamp(seconds, 0)
        .unwrap()
        .with_timezone(&Local)
        .format("%Y-%m-%d %H:%M:%S %Z")
        .to_string()
}

fn gunzip(stream: &[u8]) -> Vec<u8> {
    let mut out = Vec::new();
    flate2::read::GzDecoder::new(stream).read_to_end(&mut out).unwrap();
    out
}

#[test]
fn directories_come_before_files() {
    let mut entries = vec![
        entry("b.txt", false, 10, 0),
        entry("a", true, 4096, 0),
        entry("Z", false, 1, 0),
        entry("z", true, 4096, 0),
        entry("A.txt", false, 2, 0),
    ];
    sort_dir_entries(&mut entries);
    assert_eq!(names(&entries), vec!["a", "z", "A.txt", "Z", "b.txt"]);
}

#[test]
fn sorting_keeps_every_entry() {
    let mut entries = Vec::new();
    for i in 0..40u64 {
        let n = (i * 17 + 5) % 40;
        entries.push(entry(&format!("n{:02}", n), n % 3 == 0, n, n as i64));
    }
    sort_dir_entries(&mut entries);
    assert_eq!(entries.len(), 40);
    for pair in entries.windows(2) {
        assert!(!entry_before(&pair[1], &pair[0]));
        assert!(entry_before(&pair[0], &pair[1]));
    }
    for e in &entries {
        assert_eq!(e.name, format!("n{:02}", e.size));
        assert_eq!(e.is_dir, e.size % 3 == 0);
    }
    let mut empty: Vec<DirEntry> = Vec::new();
    sort_dir_entries(&mut empty);
    assert!(empty.is_empty());
    let mut one = vec![entry("x", false, 0, 0)];
    sort_dir_entries(&mut one);
    assert_eq!(names(&one), vec!["x"]);
}

#[test]
fn names_are_ordered_like_strings() {
    let samples = ["", "a", "ab", "b", "B", "a.txt", "文件", "文", "é", "z", "~", "10", "9"];
    for x in samples {
        for y in samples {
            assert_eq!(name_before(x, y), x < y, "{:?} {:?}", x, y);
        }
    }
}

#[test]
fn listing_shows_folder_before_file_and_size() {
    let mut entries = vec![entry("b.txt", false, 10, 1_700_000_000), entry("a", true, 4096, 0)];
    let page = HtmlBuilder::from_dir("/srv/www/", &mut entries).build();
    assert_eq!(names(&entries), vec!["a", "b.txt"]);
    let folder = page.find("<a href=\"a/\">a/</a>").unwrap();
    let file = page.find("<a href=\"b.txt\">b.txt</a>").unwrap();
    assert!(folder < file);
    assert!(page.contains("<td>10.0 B</td>"));
    assert!(page.contains("<td>文件夹</td>"));
    assert!(page.contains("<td><a href=\"../\">..</a></td>"));
    assert!(page.find("<a href=\"../\">..</a>").unwrap() < folder);
    assert!(page.contains("<h1>/srv/www的文件列表</h1><hr><table>"));
    assert!(page.contains("<title>/srv/www/的文件列表</title>"));
    assert!(page.contains(&format!("<td>{}</td>", local(1_700_000_000))));
    assert!(page.contains(&format!("<td>{}</td>", local(0))));
    assert!(page.ends_with("</table>\n                </body>\n            </html>"));
}

#[test]
fn listing_rows_are_exact() {
    let entries = vec![entry("d", true, 0, 0), entry("f.bin", false, 2048, 0)];
    let stamps = vec!["T1".to_string(), "T2".to_string()];
    let page = HtmlBuilder::from_listing("/x", &entries, &stamps).build();
    let dir_row = "\n                    <tr>\n                    <td><a href=\"d/\">d/</a></td>\n                        <td>文件夹</td>\n                        <td>T1</td>\n                    </tr>\n                    ";
    let file_row = "\n                    <tr>\n                        <td><a href=\"f.bin\">f.bin</a></td>\n                        <td>2.0 KB</td>\n                        <td>T2</td>\n                    </tr>\n                    ";
    assert!(page.contains(&format!("{}{}</table>", dir_row, file_row)));
    assert!(page.contains("<h1>/x的文件列表</h1><hr><table>\n            <tr>\n                <td>文件名</td>"));
}

#[test]
fn empty_listing_has_only_the_parent_link() {
    let mut entries = Vec::new();
    let page = HtmlBuilder::from_dir("/srv", &mut entries).build();
    assert!(page.contains("<a href=\"../\">..</a>"));
    assert_eq!(page.matches("<tr>").count(), 2);
}

#[test]
fn status_page_is_exact() {
    let page = HtmlBuilder::from_status_code(404, Some("gone")).build();
    let expected = "<!DOCTYPE html>\n            <!-- 本文件由Eslzzyl的Rust Webserver自动生成 -->\n            <html>\n                <head>\n                    <meta charset=\"utf-8\">\n                    <script></script>\n                    <title>404</title>\n                    <style>\n            body {\n                width: 35em;\n                margin: 0 auto;\n                font-family: Tahoma, Verdana, Arial, sans-serif;\n            }\n            </style>\n                </head>\n                <body>\n                \n            <h1>404</h1>\n            <p>gone</p>\n            \n                </body>\n            </html>";
    assert_eq!(page, expected);
    let teapot = HtmlBuilder::from_status_code(418, None).build();
    assert!(teapot.contains("<h1>418</h1>\n            <p>I'm a teapot</p>"));
}

fn request(text: &str) -> Request {
    Request::try_from(&text.as_bytes().to_vec(), 0).unwrap()
}

#[test]
fn directory_listing_is_cached_like_a_file() {
    let mut cache = FileCache::from_capacity(2).unwrap();
    let req = request("GET /docs HTTP/1.1\r\nAccept-Encoding: gzip\r\n\r\n");
    let outcome = ResourceOutcome::Directory { path: "/srv/docs".to_string() };
    match Response::from(&outcome, &req, 1, &cache) {
        Step::ReadDirectory { path, headonly } => {
            assert_eq!(path, "/srv/docs");
            assert!(!headonly);
        },
        _ => panic!("expected a directory to read"),
    }
    let mut entries = vec![entry("b.txt", false, 10, 0), entry("a", true, 0, 0)];
    let r = Response::from_dir(
        "/srv/docs",
        req.accept_encoding(),
        1,
        &mut cache,
        false,
        &mut entries,
    );
    assert_eq!(r.status_code(), 200);
    assert_eq!(r.content_type(), Some("text/html;charset=utf-8"));
    assert_eq!(r.content_encoding(), Some(HttpEncoding::Gzip));
    let page = String::from_utf8(gunzip(r.content().unwrap())).unwrap();
    let mut sorted = vec![entry("a", true, 0, 0), entry("b.txt", false, 10, 0)];
    assert_eq!(page, HtmlBuilder::from_dir("/srv/docs", &mut sorted).build());
    assert_eq!(cache.find("/srv/docs").unwrap(), r.content().unwrap());

    match Response::from(&outcome, &req, 2, &cache) {
        Step::Done(hit) => {
            assert_eq!(hit.content().unwrap(), r.content().unwrap());
            assert_eq!(hit.content_type(), Some("text/html;charset=utf-8"));
        },
        _ => panic!("expected a finished response"),
    }
    let mut other = vec![entry("new", false, 1, 0)];
    let again =
        Response::from_dir("/srv/docs", req.accept_encoding(), 3, &mut cache, false, &mut other);
    assert_eq!(again.content().unwrap(), r.content().unwrap());
}

#[test]
fn head_of_a_directory_states_the_length_of_the_listing() {
    let mut cache = FileCache::from_capacity(2).unwrap();
    let req = request("HEAD /docs HTTP/1.1\r\nAccept-Encoding: gzip\r\n\r\n");
    let outcome = ResourceOutcome::Directory { path: "/srv/docs".to_string() };
    match Response::from(&outcome, &req, 1, &cache) {
        Step::ReadDirectory { headonly, .. } => assert!(headonly),
        _ => panic!("expected a directory to read"),
    }
    let mut entries = vec![entry("b.txt", false, 10, 0)];
    let r =
        Response::from_dir("/srv/docs", req.accept_encoding(), 1, &mut cache, true, &mut entries);
    let mut same = vec![entry("b.txt", false, 10, 0)];
    let page = HtmlBuilder::from_dir("/srv/docs", &mut same).build();
    assert_eq!(r.content_length(), page.len() as u64);
    assert!(r.content().is_none());
    assert!(r.content_type().is_none());
    assert!(r.content_encoding().is_none());
    assert_eq!(cache.len(), 0);

    cache.push("/srv/docs", Bytes::from(vec![9u8; 31]));
    match Response::from(&outcome, &req, 2, &cache) {
        Step::Done(hit) => {
            assert_eq!(hit.content_length(), 31);
            assert!(hit.content().is_none());
            assert!(hit.content_type().is_none());
        },
        _ => panic!("expected a finished response"),
    }
}

#[test]
fn script_output_is_the_page() {
    let run = ScriptRun::Finished {
        success: true,
        stdout: "<p>你好</p>".as_bytes().to_vec(),
        stderr: Vec::new(),
    };
    assert_eq!(handle_php(&run, 1), Ok("<p>你好</p>".to_string()));
}

#[test]
fn script_output_that_is_not_utf8_is_patched() {
    let run = ScriptRun::Finished {
        success: true,
        stdout: vec![b'a', 0xff, b'b'],
        stderr: Vec::new(),
    };
    assert_eq!(handle_php(&run, 1), Ok("a\u{fffd}b".to_string()));
}

#[test]
fn script_that_fails_or_cannot_start_is_an_error() {
    let failed = ScriptRun::Finished {
        success: false,
        stdout: b"partial".to_vec(),
        stderr: b"Parse error".to_vec(),
    };
    assert_eq!(handle_php(&failed, 1), Err(Exception::PHPCodeError));
    assert_eq!(handle_php(&ScriptRun::NotStarted, 1), Err(Exception::PHPExecuteFailed));
}
