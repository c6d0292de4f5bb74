use simple_http::listing::{render_listing, PAGE_HEAD, PAGE_TAIL};
use simple_http::mime::{choose_content_type, content_type};
use simple_http::request::{HttpRequest, ParseError};
use simple_http::resolve::{classify, is_within_root, join_decoded, target_path, Kind, Probe, ResolveError, ResolvedPath};
use simple_http::response::{Content, HttpResponse, BAD_REQUEST_PAGE, FORBIDDEN_PAGE, NOT_FOUND_PAGE};
use simple_http::status::{AcceptRanges, ResponseStatus, Version};
use simple_http::text::{chars_of, decimal_string, escape_attribute, escape_html};

fn request(path: &str) -> HttpRequest {
    HttpRequest::new(&format!("GET {} HTTP/1.1\r\nHost: localhost\r\n\r\n", path)).unwrap()
}

#[test]
fn parses_request_line() {
    let q = HttpRequest::new("GET /index.html HTTP/1.1\r\nHost: x\r\n\r\n").unwrap();
    assert_eq!(q.method, "GET");
    assert_eq!(q.path, "/index.html");
    assert_eq!(q.version, Version::V1_1);
    let q = HttpRequest::new("HEAD / HTTP/2.0\n").unwrap();
    assert_eq!(q.method, "HEAD");
    assert_eq!(q.path, "/");
    assert_eq!(q.version, Version::V2_0);
}

#[test]
fn refuses_bad_request_lines() {
    assert_eq!(HttpRequest::new("GET / HTTP/1.1").unwrap_err(), ParseError::Truncated);
    assert_eq!(HttpRequest::new("").unwrap_err(), ParseError::Truncated);
    assert_eq!(HttpRequest::new("GET /\r\n").unwrap_err(), ParseError::Malformed);
    assert_eq!(HttpRequest::new("GET  / HTTP/1.1\r\n").unwrap_err(), ParseError::Malformed);
    assert_eq!(HttpRequest::new("GET / HTTP/1.1 x\r\n").unwrap_err(), ParseError::Malformed);
    assert_eq!(HttpRequest::new("GET / HTTP/3\r\n").unwrap_err(), ParseError::UnknownVersion);
}

#[test]
fn joins_request_paths_onto_root() {
    assert_eq!(target_path("/srv", "/index.html").unwrap(), "/srv/index.html");
    assert_eq!(target_path("/srv", "/a/./b/../c/").unwrap(), "/srv/a/b/../c");
    assert_eq!(target_path("/srv", "").unwrap(), "/srv");
    assert_eq!(target_path("/srv", "/").unwrap(), "/srv");
    assert_eq!(target_path("/", "/etc").unwrap(), "/etc");
    assert_eq!(join_decoded("/srv", "x//y").unwrap(), "/srv/x/y");
}

#[test]
fn decodes_percent_escapes_once() {
    assert_eq!(target_path("/srv", "/my%20file.txt").unwrap(), "/srv/my file.txt");
    assert_eq!(target_path("/srv", "/%C3%A9t%C3%A9").unwrap(), "/srv/\u{e9}t\u{e9}");
    assert_eq!(target_path("/srv", "/%252e%252e").unwrap(), "/srv/%2e%2e");
}

#[test]
fn traversal_is_denied() {
    assert_eq!(target_path("/srv", "/../../etc/passwd").unwrap_err(), ResolveError::AccessDenied);
    assert_eq!(target_path("/srv", "/%2e%2e/%2e%2e/etc/passwd").unwrap_err(), ResolveError::AccessDenied);
    assert_eq!(target_path("/srv", "/a/../../etc").unwrap_err(), ResolveError::AccessDenied);
    assert_eq!(join_decoded("/srv", "..").unwrap_err(), ResolveError::AccessDenied);
}

#[test]
fn symlink_escape_is_denied() {
    let r = classify("/srv", "/srv/link", Probe::File("/etc/passwd".to_string()));
    assert_eq!(r.unwrap_err(), ResolveError::AccessDenied);
    let r = classify("/srv", "/srv/link", Probe::Directory("/srv2".to_string()));
    assert_eq!(r.unwrap_err(), ResolveError::AccessDenied);
    let r = classify("/srv", "/srv/a", Probe::File("/srv/b/c".to_string())).unwrap();
    assert_eq!(r.absolute_path, "/srv/b/c");
    assert_eq!(r.kind, Kind::File);
    let r = classify("/srv", "/srv/nope", Probe::Missing).unwrap();
    assert_eq!(r.absolute_path, "/srv/nope");
    assert_eq!(r.kind, Kind::Missing);
}

#[test]
fn within_root_compares_components() {
    assert!(is_within_root("/srv", "/srv"));
    assert!(is_within_root("/srv", "/srv/a"));
    assert!(!is_within_root("/srv", "/srv2/a"));
    assert!(!is_within_root("/srv", "/sr"));
    assert!(!is_within_root("/srv", "/"));
    assert!(is_within_root("/", "/etc"));
}

#[test]
fn content_type_sniffs_before_extension() {
    let png = vec![0x89u8, 0x50, 0x4E, 0x47, 0x0D, 0x0A, 0x1A, 0x0A, 0, 0, 0, 0];
    assert_eq!(content_type(&png, "/srv/picture.txt"), "image/png");
    assert_eq!(content_type(b"plain words", "/srv/notes.css"), "text/css");
    assert_eq!(content_type(b"plain words", "/srv/noext"), "application/octet-stream");
    assert_eq!(choose_content_type(Some("image/gif".to_string()), "text/plain".to_string()), "image/gif");
    assert_eq!(choose_content_type(None, "text/plain".to_string()), "text/plain");
}

#[test]
fn escapes_html_text() {
    assert_eq!(escape_html("<script>a && b</script>"), "&lt;script&gt;a &amp;&amp; b&lt;/script&gt;");
    assert_eq!(escape_html("plain"), "plain");
}

#[test]
fn renders_decimal() {
    assert_eq!(decimal_string(0), "0");
    assert_eq!(decimal_string(11), "11");
    assert_eq!(decimal_string(4096), "4096");
    assert_eq!(decimal_string(usize::MAX), usize::MAX.to_string());
}

#[test]
fn file_scenario() {
    let q = request("/index.html");
    let target = target_path("/srv", &q.path).unwrap();
    let resolved = classify("/srv", &target, Probe::File(target.clone())).unwrap();
    let r = HttpResponse::new(&q, "/srv", &resolved, Content::Bytes(b"<h1>hi</h1>".to_vec()));
    assert_eq!(r.status, ResponseStatus::OK);
    assert_eq!(r.content_length, 11);
    assert_eq!(r.content_type, "text/html");
    assert_eq!(r.response_body, b"<h1>hi</h1>".to_vec());
    assert_eq!(r.accept_ranges, AcceptRanges::NoRanges);
    assert_eq!(r.current_path, "/index.html");
    assert_eq!(r.head(), "HTTP/2.0 200 OK\r\nContent-Length: 11\r\nContent-Type: text/html\r\n\r\n");
    let mut all = r.head().into_bytes();
    all.extend_from_slice(b"<h1>hi</h1>");
    assert_eq!(r.to_bytes(), all);
}

#[test]
fn traversal_scenario() {
    let q = request("/../../etc/passwd");
    assert_eq!(target_path("/srv", &q.path).unwrap_err(), ResolveError::AccessDenied);
}

#[test]
fn empty_directory_scenario() {
    let q = request("/empty/");
    let target = target_path("/srv", &q.path).unwrap();
    assert_eq!(target, "/srv/empty");
    let resolved = classify("/srv", &target, Probe::Directory(target.clone())).unwrap();
    let r = HttpResponse::new(&q, "/srv", &resolved, Content::Listing(vec![]));
    assert_eq!(r.status, ResponseStatus::OK);
    assert_eq!(r.content_type, "text/html");
    let expected = format!(
        "{}<h1>Currently in /srv/empty</h1><a href=\"/\">..</a><br>{}",
        PAGE_HEAD, PAGE_TAIL
    );
    assert_eq!(String::from_utf8(r.response_body.clone()).unwrap(), expected);
    assert_eq!(r.content_length, r.response_body.len());
    assert_eq!(String::from_utf8(r.response_body).unwrap().matches("<a ").count(), 1);
}

#[test]
fn listing_has_one_link_per_child() {
    let page = render_listing("/srv", "/srv/a/b", &vec!["x.txt".to_string(), "y".to_string()]);
    let expected = format!(
        "{}<h1>Currently in /srv/a/b</h1><a href=\"/a\">..</a><br><a href=\"/a/b/x.txt\">x.txt</a><br><a href=\"/a/b/y\">y</a><br>{}",
        PAGE_HEAD, PAGE_TAIL
    );
    assert_eq!(page, expected);
    let root_page = render_listing("/srv", "/srv", &vec!["f".to_string()]);
    assert!(root_page.contains("<a href=\"/\">..</a><br><a href=\"/f\">f</a><br>"));
    let top = render_listing("/srv", "/srv/a", &vec![]);
    assert!(top.contains("<a href=\"/\">..</a><br>"));
}

#[test]
fn missing_scenario() {
    let q = request("/does-not-exist");
    let target = target_path("/srv", &q.path).unwrap();
    let resolved = classify("/srv", &target, Probe::Missing).unwrap();
    assert_eq!(resolved.kind, Kind::Missing);
    let r = HttpResponse::new(&q, "/srv", &resolved, Content::Nothing);
    assert_eq!(r.status, ResponseStatus::NotFound);
    assert_eq!(r.status.code(), 404);
    assert_eq!(r.response_body, NOT_FOUND_PAGE.as_bytes().to_vec());
    assert_eq!(r.content_length, NOT_FOUND_PAGE.len());
    assert_eq!(r.content_type, "text/plain");
    assert!(r.head().starts_with("HTTP/2.0 404 NOT FOUND\r\n"));
}

#[test]
fn script_name_is_escaped_in_listing() {
    let resolved = ResolvedPath { absolute_path: "/srv".to_string(), kind: Kind::Directory };
    let q = request("/");
    let r = HttpResponse::new(&q, "/srv", &resolved, Content::Listing(vec!["<script>alert(1)</script>".to_string()]));
    let body = String::from_utf8(r.response_body.clone()).unwrap();
    assert!(!body.contains("<script>"));
    assert!(body.contains("&lt;script&gt;alert(1)&lt;/script&gt;"));
    assert_eq!(r.content_length, r.response_body.len());
}

#[test]
fn resolution_is_repeatable() {
    let a = target_path("/srv", "/x/%2e/y").unwrap();
    let b = target_path("/srv", "/x/%2e/y").unwrap();
    assert_eq!(a, b);
    let q = request("/x/y");
    let ra = classify("/srv", &a, Probe::File(a.clone())).unwrap();
    let rb = classify("/srv", &b, Probe::File(b.clone())).unwrap();
    let r1 = HttpResponse::new(&q, "/srv", &ra, Content::Bytes(vec![1, 2, 3]));
    let r2 = HttpResponse::new(&q, "/srv", &rb, Content::Bytes(vec![1, 2, 3]));
    assert_eq!(r1.response_body, r2.response_body);
    assert_eq!(r1.content_type, r2.content_type);
    assert_eq!(ra.kind, rb.kind);
}

#[test]
fn status_and_range_texts() {
    assert_eq!(ResponseStatus::OK.as_string(), "200 OK");
    assert_eq!(ResponseStatus::NotFound.as_string(), "404 NOT FOUND");
    assert_eq!(ResponseStatus::OK.code(), 200);
    assert_eq!(AcceptRanges::Bytes.as_string(), "accept-ranges: bytes");
    assert_eq!(AcceptRanges::NoRanges.as_string(), "accept-ranges: none");
    assert_eq!(Version::V1_0.as_string(), "HTTP/1.0");
}

#[test]
fn dot_dot_is_left_for_the_filesystem_after_links() {
    let target = target_path("/srv", "/link/../x").unwrap();
    assert_eq!(target, "/srv/link/../x");
    let r = classify("/srv", &target, Probe::File("/etc/x".to_string()));
    assert_eq!(r.unwrap_err(), ResolveError::AccessDenied);
    let r = classify("/srv", &target, Probe::File("/srv/x".to_string())).unwrap();
    assert_eq!(r.absolute_path, "/srv/x");
}

#[test]
fn escapes_attribute_values() {
    assert_eq!(escape_attribute("x\" onmouseover=\"a<b>&"), "x&quot; onmouseover=&quot;a&lt;b&gt;&amp;");
    assert_eq!(escape_html("x\"y"), "x\"y");
}

#[test]
fn quote_in_name_cannot_close_href() {
    let page = render_listing("/srv", "/srv", &vec!["x\" onmouseover=\"evil()".to_string()]);
    assert!(page.contains("<a href=\"/x&quot; onmouseover=&quot;evil()\">x\" onmouseover=\"evil()</a><br>"));
    let start = page.find("<a href=\"/x").unwrap() + "<a href=\"".len();
    let end = start + page[start..].find('"').unwrap();
    assert_eq!(&page[start..end], "/x&quot; onmouseover=&quot;evil()");
    assert_eq!(&page[end..end + 2], "\">");
}

#[test]
fn refusals_are_well_formed_responses() {
    let q = request("/../etc/passwd");
    let r = HttpResponse::forbidden(&q);
    assert_eq!(r.status, ResponseStatus::Forbidden);
    assert_eq!(r.status.code(), 403);
    assert_eq!(r.response_body, FORBIDDEN_PAGE.as_bytes().to_vec());
    assert_eq!(r.content_length, r.response_body.len());
    assert_eq!(r.current_path, "/../etc/passwd");
    assert!(r.head().starts_with("HTTP/2.0 403 FORBIDDEN\r\n"));
    let b = HttpResponse::bad_request();
    assert_eq!(b.status, ResponseStatus::BadRequest);
    assert_eq!(b.status.code(), 400);
    assert_eq!(b.response_body, BAD_REQUEST_PAGE.as_bytes().to_vec());
    assert_eq!(b.head(), format!("HTTP/2.0 400 BAD REQUEST\r\nContent-Length: {}\r\nContent-Type: text/plain\r\n\r\n", BAD_REQUEST_PAGE.len()));
}

#[test]
fn splits_text_into_characters() {
    assert_eq!(chars_of("a\u{e9}b"), vec!['a', '\u{e9}', 'b']);
    assert_eq!(chars_of(""), Vec::<char>::new());
}
