use webserver::param::{get_mime, status_text, HttpEncoding, HttpRequestMethod, HttpVersion};
use webserver::router::{extension, resolve, route, Found, ResourceOutcome};

#[test]
fn root_path_is_the_index_page() {
    assert_eq!(route("/", 0, "/srv/www"), "files/html/index.html");
    assert_eq!(route("/", 0, ""), "files/html/index.html");
}

#[test]
fn paths_are_set_onto_the_root() {
    assert_eq!(route("/a/b.html", 0, "/srv/www"), "/srv/www/a/b.html");
    assert_eq!(route("/a/b.html", 0, "/srv/www/"), "/srv/www/a/b.html");
    assert_eq!(route("/a/b.html", 0, "."), "./a/b.html");
    assert_eq!(route("/a/b.html", 0, ""), "a/b.html");
    assert_eq!(route("/a/", 0, "/srv"), "/srv/a/");
}

#[test]
fn route_agrees_with_path_join() {
    let roots = ["/srv/www", "/srv/www/", ".", "", "/", "rel/dir"];
    let paths = ["/a", "/a/b.txt", "//etc/passwd", "/../x", "/a/", "a", "", "/文件.html"];
    for root in roots {
        for path in paths {
            let rest = match path.strip_prefix('/') {
                Some(r) => r,
                None => path,
            };
            let expected = std::path::Path::new(root).join(rest);
            assert_eq!(route(path, 0, root), expected.to_str().unwrap(), "{:?} {:?}", root, path);
        }
    }
}

#[test]
fn dot_segments_are_not_resolved() {
    assert_eq!(route("/../secret", 0, "/srv/www"), "/srv/www/../secret");
    assert_eq!(route("//etc/passwd", 0, "/srv/www"), "/etc/passwd");
}

#[test]
fn path_without_leading_slash_is_kept_whole() {
    assert_eq!(route("index.html", 0, "/srv"), "/srv/index.html");
    assert_eq!(route("*", 0, "/srv"), "/srv/*");
    assert_eq!(route("", 0, "/srv"), "/srv/");
}

#[test]
fn extension_is_what_follows_the_last_dot() {
    assert_eq!(extension("/srv/a.txt"), Some("txt".to_string()));
    assert_eq!(extension("/srv/a.tar.gz"), Some("gz".to_string()));
    assert_eq!(extension("a.b/c.d"), Some("d".to_string()));
    assert_eq!(extension("/srv/a."), Some("".to_string()));
    assert_eq!(extension("/srv/..x"), Some("x".to_string()));
    assert_eq!(extension("/srv/文件.网页"), Some("网页".to_string()));
}

#[test]
fn some_names_have_no_extension() {
    assert_eq!(extension("/srv/Makefile"), None);
    assert_eq!(extension("/srv.d/Makefile"), None);
    assert_eq!(extension("/srv/.profile"), None);
    assert_eq!(extension("/srv/.."), None);
    assert_eq!(extension(".."), None);
    assert_eq!(extension(""), None);
    assert_eq!(extension("/"), None);
    assert_eq!(extension("/srv/a.txt/"), None);
}

#[test]
fn extension_agrees_with_std_on_file_paths() {
    let paths = [
        "a.txt", "/x/y.z", "noext", ".hidden", "..", "a.", "a..b", "/d.e/f", "/d.e/f.g.h",
        "...", "/a/..b", "x/.y.z",
    ];
    for path in paths {
        let expected = std::path::Path::new(path)
            .extension()
            .map(|e| e.to_str().unwrap().to_string());
        assert_eq!(extension(path), expected, "{:?}", path);
    }
}

#[test]
fn mime_catalog_entries() {
    assert_eq!(get_mime("html"), "text/html;charset=utf-8");
    assert_eq!(get_mime("css"), "text/css;charset=utf-8");
    assert_eq!(get_mime("js"), "text/javascript;charset=utf-8");
    assert_eq!(get_mime("png"), "image/png");
    assert_eq!(get_mime("aac"), "audio/aac");
    assert_eq!(get_mime("7z"), "application/x-7z-compressed");
    assert_eq!(get_mime("php"), "application/x-httpd-php");
    assert_eq!(get_mime("_"), "application/octet-stream");
}

#[test]
fn unknown_extension_is_octet_stream() {
    assert_eq!(get_mime("xyz"), "application/octet-stream");
    assert_eq!(get_mime(""), "application/octet-stream");
    assert_eq!(get_mime("HTML"), "application/octet-stream");
    assert_eq!(get_mime("htmlx"), "application/octet-stream");
}

#[test]
fn status_catalog_entries() {
    assert_eq!(status_text(100), Some("Continue"));
    assert_eq!(status_text(200), Some("OK"));
    assert_eq!(status_text(204), Some("No Content"));
    assert_eq!(status_text(308), Some("Permanent Redirect"));
    assert_eq!(status_text(404), Some("Not Found"));
    assert_eq!(status_text(405), Some("Method Not Allowed"));
    assert_eq!(status_text(418), Some("I'm a teapot"));
    assert_eq!(status_text(500), Some("Internal Server Error"));
    assert_eq!(status_text(505), Some("HTTP Version Not Supported"));
    assert_eq!(status_text(306), None);
    assert_eq!(status_text(0), None);
    assert_eq!(status_text(999), None);
    let mut known = 0;
    for code in 0..=u16::MAX {
        if status_text(code).is_some() {
            known += 1;
        }
    }
    assert_eq!(known, 45);
}

#[test]
fn names_of_the_vocabulary() {
    assert_eq!(HttpVersion::V1_1.to_string(), "1.1");
    assert_eq!(HttpEncoding::Gzip.to_string(), "gzip");
    assert_eq!(HttpEncoding::Deflate.to_string(), "deflate");
    assert_eq!(HttpEncoding::Br.to_string(), "br");
    assert_eq!(HttpRequestMethod::Get.to_string(), "GET");
    assert_eq!(HttpRequestMethod::Head.to_string(), "HEAD");
    assert_eq!(HttpRequestMethod::Options.to_string(), "OPTIONS");
    assert_eq!(HttpRequestMethod::Post.to_string(), "POST");
}

#[test]
fn what_is_found_decides_the_outcome() {
    assert!(matches!(resolve("/srv/x".to_string(), Found::Nothing), ResourceOutcome::NotFound));
    match resolve("/srv/x".to_string(), Found::Directory) {
        ResourceOutcome::Directory { path } => assert_eq!(path, "/srv/x"),
        _ => panic!("expected a directory"),
    }
    match resolve("/srv/x.txt".to_string(), Found::File { size: 1024 }) {
        ResourceOutcome::File { path, size } => {
            assert_eq!(path, "/srv/x.txt");
            assert_eq!(size, 1024);
        },
        _ => panic!("expected a file"),
    }
}
