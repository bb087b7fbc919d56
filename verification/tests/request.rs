use webserver::exception::Exception;
use webserver::param::{HttpEncoding, HttpRequestMethod, HttpVersion};
use webserver::request::Request;

fn parse(text: &str) -> Result<Request, Exception> {
    Request::try_from(&text.as_bytes().to_vec(), 0)
}

fn error_of(text: &str) -> Exception {
    match parse(text) {
        Ok(_) => panic!("parsed: {:?}", text),
        Err(e) => e,
    }
}

#[test]
fn request_line_alone_parses() {
    let request = parse("GET /index.html HTTP/1.1").unwrap();
    assert_eq!(request.method(), HttpRequestMethod::Get);
    assert_eq!(request.path(), "/index.html");
    assert_eq!(*request.version(), HttpVersion::V1_1);
    assert_eq!(request.user_agent(), "");
    assert!(request.accept_encoding().is_empty());
}

#[test]
fn accept_encoding_lists_all_three() {
    let request =
        parse("GET / HTTP/1.1\r\nHost: example.org\r\nAccept-Encoding: gzip, deflate, br\r\n\r\n")
            .unwrap();
    assert_eq!(
        *request.accept_encoding(),
        vec![HttpEncoding::Gzip, HttpEncoding::Deflate, HttpEncoding::Br]
    );
}

#[test]
fn accept_encoding_is_searched_not_parsed() {
    let request = parse("GET / HTTP/1.1\r\nAccept-Encoding: br;q=1.0, xgzipx\r\n").unwrap();
    assert_eq!(*request.accept_encoding(), vec![HttpEncoding::Gzip, HttpEncoding::Br]);
    let request = parse("GET / HTTP/1.1\r\nAccept-Encoding: identity\r\n").unwrap();
    assert!(request.accept_encoding().is_empty());
    let request = parse("GET / HTTP/1.1\r\nAccept-Encoding: deflate\r\n").unwrap();
    assert_eq!(*request.accept_encoding(), vec![HttpEncoding::Deflate]);
}

#[test]
fn user_agent_is_what_follows_the_first_delimiter() {
    let request = parse("GET / HTTP/1.1\r\nUser-Agent: curl/8.0: extra\r\n\r\n").unwrap();
    assert_eq!(request.user_agent(), "curl/8.0: extra");
}

#[test]
fn first_matching_header_wins() {
    let request = parse(
        "GET / HTTP/1.1\r\nUser-Agent: one\r\nUser-Agent: two\r\nAccept-Encoding: gzip\r\nAccept-Encoding: deflate\r\n",
    )
    .unwrap();
    assert_eq!(request.user_agent(), "one");
    assert_eq!(*request.accept_encoding(), vec![HttpEncoding::Gzip]);
}

#[test]
fn header_names_match_in_any_case() {
    let request =
        parse("GET / HTTP/1.1\r\nuSeR-aGeNt: agent\r\nACCEPT-ENCODING: deflate\r\n").unwrap();
    assert_eq!(request.user_agent(), "agent");
    assert_eq!(*request.accept_encoding(), vec![HttpEncoding::Deflate]);
}

#[test]
fn request_line_is_not_searched_for_headers() {
    let error = error_of("user-agent: a b\r\n");
    assert_eq!(error, Exception::UnSupportedRequestMethod);
    let request = parse("GET user-agent: HTTP/1.1\r\n").unwrap();
    assert_eq!(request.user_agent(), "");
    assert_eq!(request.path(), "user-agent:");
}

#[test]
fn methods_match_in_any_case() {
    assert_eq!(parse("get / http/1.1").unwrap().method(), HttpRequestMethod::Get);
    assert_eq!(parse("Head / HTTP/1.1").unwrap().method(), HttpRequestMethod::Head);
    assert_eq!(parse("OPTIONS * HTTP/1.1").unwrap().method(), HttpRequestMethod::Options);
    assert_eq!(parse("pOsT /form HTTP/1.1").unwrap().method(), HttpRequestMethod::Post);
}

#[test]
fn tokens_after_the_third_are_ignored() {
    let request = parse("GET /a HTTP/1.1 trailing words\r\n").unwrap();
    assert_eq!(request.path(), "/a");
}

#[test]
fn path_may_be_empty() {
    let request = parse("GET  HTTP/1.1\r\n").unwrap();
    assert_eq!(request.path(), "");
}

#[test]
fn bytes_that_are_not_utf8_are_refused() {
    let buffer: Vec<u8> = vec![b'G', b'E', b'T', b' ', 0xff, 0xfe, b' ', b'H'];
    assert!(matches!(Request::try_from(&buffer, 7), Err(Exception::RequestIsNotUtf8)));
    let truncated: Vec<u8> = vec![b'G', b'E', b'T', b' ', 0xe6, 0x96];
    assert!(matches!(Request::try_from(&truncated, 7), Err(Exception::RequestIsNotUtf8)));
}

#[test]
fn unknown_method_is_refused() {
    assert_eq!(error_of("DELETE / HTTP/1.1\r\n"), Exception::UnSupportedRequestMethod);
    assert_eq!(error_of("GETS / HTTP/1.1\r\n"), Exception::UnSupportedRequestMethod);
}

#[test]
fn other_versions_are_refused() {
    assert_eq!(error_of("GET / HTTP/1.0\r\n"), Exception::UnsupportedHttpVersion);
    assert_eq!(error_of("GET / HTTP/2\r\n"), Exception::UnsupportedHttpVersion);
    assert_eq!(error_of("GET / HTTP/1.1\n"), Exception::UnsupportedHttpVersion);
}

#[test]
fn short_request_lines_are_malformed() {
    assert_eq!(error_of(""), Exception::MalformedRequest);
    assert_eq!(error_of("GET"), Exception::MalformedRequest);
    assert_eq!(error_of("GET /"), Exception::MalformedRequest);
    assert_eq!(error_of("BREW /"), Exception::MalformedRequest);
    assert_eq!(error_of("\r\nGET / HTTP/1.1"), Exception::MalformedRequest);
}

#[test]
fn header_without_delimiter_is_malformed() {
    assert_eq!(error_of("GET / HTTP/1.1\r\nUser-Agent:curl\r\n"), Exception::MalformedRequest);
    assert_eq!(error_of("GET / HTTP/1.1\r\nAccept-Encoding\r\n"), Exception::MalformedRequest);
}

#[test]
fn padded_buffer_parses() {
    let mut buffer = b"GET /a.txt HTTP/1.1\r\nUser-Agent: t\r\n\r\n".to_vec();
    buffer.resize(1024, 0);
    let request = Request::try_from(&buffer, 3).unwrap();
    assert_eq!(request.path(), "/a.txt");
    assert_eq!(request.user_agent(), "t");
}

#[test]
fn text_beyond_ascii_is_kept() {
    let request = parse("GET /文件.html HTTP/1.1\r\nUser-Agent: 浏览器\r\n").unwrap();
    assert_eq!(request.path(), "/文件.html");
    assert_eq!(request.user_agent(), "浏览器");
}

#[test]
fn parsing_twice_gives_the_same_request() {
    let text = "HEAD /x HTTP/1.1\r\nAccept-Encoding: gzip\r\nUser-Agent: a\r\n";
    let one = parse(text).unwrap();
    let two = Request::from_text(text).unwrap();
    assert_eq!(one.method(), two.method());
    assert_eq!(one.path(), two.path());
    assert_eq!(one.user_agent(), two.user_agent());
    assert_eq!(one.accept_encoding(), two.accept_encoding());
}
