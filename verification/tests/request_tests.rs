use mpquic::request::{find, handle_stream, request_path, resolve_path, response_body};

fn resolved(root: &str, path: &str) -> String {
    String::from_utf8(resolve_path(root.as_bytes(), path.as_bytes())).unwrap()
}

#[test]
fn request_names_the_first_line() {
    assert_eq!(request_path(b"GET /index.html\r\n"), Some(b"/index.html".to_vec()));
    assert_eq!(request_path(b"GET /index.html\n"), Some(b"/index.html".to_vec()));
    assert_eq!(request_path(b"GET /index.html"), Some(b"/index.html".to_vec()));
    assert_eq!(request_path(b"GET /a\r\nGET /b\r\n"), Some(b"/a".to_vec()));
    assert_eq!(request_path(b"GET /a b\r\n"), Some(b"/a b".to_vec()));
}

#[test]
fn request_line_keeps_a_lone_carriage_return() {
    assert_eq!(request_path(b"GET /a\r"), Some(b"/a\r".to_vec()));
    assert_eq!(request_path(b"GET /a\rb\n"), Some(b"/a\rb".to_vec()));
    assert_eq!(request_path(b"GET /a\r\r\n"), Some(b"/a\r".to_vec()));
}

#[test]
fn request_with_empty_line() {
    assert_eq!(request_path(b"GET \n"), Some(Vec::new()));
    assert_eq!(request_path(b"GET \r\n"), Some(Vec::new()));
    assert_eq!(request_path(b"GET \nrest"), Some(Vec::new()));
}

#[test]
fn other_payloads_are_no_request() {
    assert_eq!(request_path(b"GET "), None);
    assert_eq!(request_path(b"GET"), None);
    assert_eq!(request_path(b""), None);
    assert_eq!(request_path(b"get /index.html\r\n"), None);
    assert_eq!(request_path(b"POST /index.html\r\n"), None);
    assert_eq!(request_path(b" GET /index.html\r\n"), None);
    assert_eq!(request_path(b"GET\t/index.html\r\n"), None);
}

#[test]
fn find_gives_the_first_stop() {
    assert_eq!(find(b"abc/def/g", 0, b'/'), 3);
    assert_eq!(find(b"abc/def/g", 3, b'/'), 3);
    assert_eq!(find(b"abc/def/g", 4, b'/'), 7);
    assert_eq!(find(b"abc/def/g", 8, b'/'), 9);
    assert_eq!(find(b"abc/def/g", 9, b'/'), 9);
    assert_eq!(find(b"", 0, b'/'), 0);
}

#[test]
fn traversal_stays_below_the_root() {
    assert_eq!(resolved("/srv/www", "/../../etc/passwd"), "/srv/www/etc/passwd");
    assert_eq!(resolved("/srv/www", "../../../etc/passwd"), "/srv/www/etc/passwd");
    assert_eq!(resolved("/srv/www", "/a/../../b"), "/srv/www/a/b");
    assert_eq!(resolved("/srv/www", ".."), "/srv/www");
    assert_eq!(resolved("/srv/www", "/.."), "/srv/www");
}

#[test]
fn plain_components_are_joined_with_slashes() {
    assert_eq!(resolved("/srv/www", "/index.html"), "/srv/www/index.html");
    assert_eq!(resolved("/srv/www", "index.html"), "/srv/www/index.html");
    assert_eq!(resolved("/srv/www", "/a/b/c.txt"), "/srv/www/a/b/c.txt");
    assert_eq!(resolved("root", "a"), "root/a");
}

#[test]
fn empty_and_dot_components_are_dropped() {
    assert_eq!(resolved("/srv/www", "//a///b/"), "/srv/www/a/b");
    assert_eq!(resolved("/srv/www", "/./a/./b/."), "/srv/www/a/b");
    assert_eq!(resolved("/srv/www", "./a"), "/srv/www/a");
    assert_eq!(resolved("/srv/www", ""), "/srv/www");
    assert_eq!(resolved("/srv/www", "/"), "/srv/www");
    assert_eq!(resolved("/srv/www", "."), "/srv/www");
}

#[test]
fn names_with_dots_are_plain() {
    assert_eq!(resolved("/srv/www", "/..."), "/srv/www/...");
    assert_eq!(resolved("/srv/www", "/..a/.b/c."), "/srv/www/..a/.b/c.");
    assert_eq!(resolved("/srv/www", "/a..b"), "/srv/www/a..b");
}

#[test]
fn root_with_or_without_trailing_slash() {
    assert_eq!(resolved("/srv/www/", "/a/b"), "/srv/www/a/b");
    assert_eq!(resolved("/", "/a/b"), "/a/b");
    assert_eq!(resolved("", "/a/b"), "a/b");
    assert_eq!(resolved("", "/../a"), "a");
}

#[test]
fn resolving_agrees_with_the_standard_library() {
    for (root, path) in [
        ("/srv/www", "/../../etc/passwd"),
        ("/srv/www/", "a//b/./c/../d"),
        ("", "x/y"),
        ("rel", "/./..//z"),
        ("/", "."),
    ] {
        let mut expected = std::path::PathBuf::from(root);
        for c in std::path::Path::new(path).components() {
            if let std::path::Component::Normal(v) = c {
                expected.push(v);
            }
        }
        assert_eq!(resolved(root, path), expected.to_str().unwrap());
    }
}

#[test]
fn first_line_agrees_with_the_standard_library() {
    for text in ["/a\r\nb", "/a\nb", "/a", "/a\r", "\r\n", "\n", "x\r\r\n", "caf\u{e9}/\u{4e2d}\n"] {
        let mut payload = b"GET ".to_vec();
        payload.extend_from_slice(text.as_bytes());
        let expected = text.lines().next().unwrap();
        assert_eq!(request_path(&payload), Some(expected.as_bytes().to_vec()));
    }
}

#[test]
fn missing_file_gets_the_fixed_body() {
    assert_eq!(response_body(None), b"Not Found!\r\n".to_vec());
    assert_eq!(response_body(Some(vec![1, 2, 3])), vec![1, 2, 3]);
    assert_eq!(response_body(Some(Vec::new())), Vec::<u8>::new());
}

#[test]
fn stream_payload_names_a_file_below_the_root() {
    assert_eq!(
        handle_stream(b"GET /../../etc/passwd\r\n", b"/srv/www"),
        Some(b"/srv/www/etc/passwd".to_vec())
    );
    assert_eq!(handle_stream(b"GET /\r\n", b"/srv/www"), Some(b"/srv/www".to_vec()));
    assert_eq!(handle_stream(b"HEAD /a\r\n", b"/srv/www"), None);
    assert_eq!(handle_stream(b"GET ", b"/srv/www"), None);
}
