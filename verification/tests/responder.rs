use blog::responder::{
    build_response, get_content_type, not_found_response, parse_request_line, plan_request,
    resolve_path, respond_get, RequestPlan,
};

#[test]
fn content_type_table() {
    assert_eq!(get_content_type("css"), "text/css");
    assert_eq!(get_content_type("png"), "image/png");
    assert_eq!(get_content_type("js"), "application/javascript");
    assert_eq!(get_content_type("html"), "text/html");
    assert_eq!(get_content_type("jpg"), "image/jpeg");
    assert_eq!(get_content_type("jpeg"), "image/jpeg");
    assert_eq!(get_content_type("gif"), "image/gif");
}

#[test]
fn content_type_no_extension_is_html() {
    assert_eq!(get_content_type(""), "text/html");
}

#[test]
fn content_type_unknown_is_binary() {
    assert_eq!(get_content_type("webp"), "application/octet-stream");
    assert_eq!(get_content_type("exe"), "application/octet-stream");
}

#[test]
fn parse_accepts_three_tokens() {
    let r = parse_request_line(b"GET /blog/sample HTTP/1.1").unwrap();
    assert_eq!(r.method, b"GET".to_vec());
    assert_eq!(r.path, b"/blog/sample".to_vec());
    assert_eq!(r.version, b"HTTP/1.1".to_vec());
}

#[test]
fn parse_accepts_extra_whitespace() {
    let r = parse_request_line(b"  GET   /  HTTP/1.1 ").unwrap();
    assert_eq!(r.method, b"GET".to_vec());
    assert_eq!(r.path, b"/".to_vec());
    assert_eq!(r.version, b"HTTP/1.1".to_vec());
}

#[test]
fn parse_rejects_too_few_tokens() {
    assert!(parse_request_line(b"GET /").is_none());
    assert!(parse_request_line(b"").is_none());
    assert!(parse_request_line(b"   ").is_none());
}

#[test]
fn parse_rejects_too_many_tokens() {
    assert!(parse_request_line(b"GET / HTTP/1.1 extra").is_none());
}

#[test]
fn resolve_root_path_serves_default_document() {
    let t = resolve_path(b"output", b"/").unwrap();
    assert_eq!(t.full_path, b"output/home".to_vec());
    assert_eq!(t.content_type, "text/html");
}

#[test]
fn resolve_maps_extension_to_content_type() {
    let t = resolve_path(b"output", b"/assets/styles.css").unwrap();
    assert_eq!(t.full_path, b"output/assets/styles.css".to_vec());
    assert_eq!(t.content_type, "text/css");
}

#[test]
fn resolve_rejects_parent_traversal() {
    assert!(resolve_path(b"output", b"/../etc/passwd").is_none());
    assert!(resolve_path(b"output", b"/a/../b").is_none());
}

#[test]
fn resolve_rejects_unrooted_path() {
    assert!(resolve_path(b"output", b"etc/passwd").is_none());
    assert!(resolve_path(b"output", b"").is_none());
}

#[test]
fn get_found_is_full_200_response() {
    let body = b"<html>home</html>".to_vec();
    let r = respond_get("text/html", Some(body));
    let expected =
        b"HTTP/1.1 200 OK\r\nContent-Type: text/html\r\nContent-Length: 17\r\n\r\n<html>home</html>";
    assert_eq!(r, expected.to_vec());
}

#[test]
fn content_length_counts_bytes_not_characters() {
    let body = "héllo".as_bytes().to_vec();
    assert_eq!(body.len(), 6);
    let r = build_response("HTTP/1.1 200 OK", "text/html", &body);
    let text = String::from_utf8(r).unwrap();
    assert!(text.contains("Content-Length: 6\r\n"));
}

#[test]
fn get_unreadable_is_fixed_404_response() {
    let r = respond_get("text/html", None);
    let expected = b"HTTP/1.1 404 NOT FOUND\r\nContent-Type: text/html\r\nContent-Length: 22\r\n\r\n<h1>404 Not Found</h1>";
    assert_eq!(r, expected.to_vec());
}

#[test]
fn rejected_path_gets_fixed_404_response() {
    let r = not_found_response();
    let expected = b"HTTP/1.1 404 NOT FOUND\r\nContent-Type: text/html\r\nContent-Length: 22\r\n\r\n<h1>404 Not Found</h1>";
    assert_eq!(r, expected.to_vec());
}

#[test]
fn plan_serves_get_request() {
    match plan_request(b"GET /pic.png HTTP/1.1", b"output") {
        RequestPlan::Get { target } => {
            assert_eq!(target.full_path, b"output/pic.png".to_vec());
            assert_eq!(target.content_type, "image/png");
        }
        _ => panic!("expected a served GET"),
    }
}

#[test]
fn plan_names_non_get_method() {
    match plan_request(b"POST / HTTP/1.1", b"output") {
        RequestPlan::NotGet { method } => assert_eq!(method, b"POST".to_vec()),
        _ => panic!("expected a refused method"),
    }
}

#[test]
fn plan_rejects_traversal_without_reading() {
    match plan_request(b"GET /../secret HTTP/1.1", b"output") {
        RequestPlan::Rejected => {}
        _ => panic!("expected the path to be rejected"),
    }
}

#[test]
fn get_root_serves_default_document_end_to_end() {
    // A GET for `/` against a populated output root: the plan names the
    // default document, and the response carries its exact bytes as
    // text/html with the byte-exact content length.
    let root_document = b"<html><body>welcome</body></html>".to_vec();
    match plan_request(b"GET / HTTP/1.1", b"output") {
        RequestPlan::Get { target } => {
            assert_eq!(target.full_path, b"output/home".to_vec());
            assert_eq!(target.content_type, "text/html");
            let response = respond_get(target.content_type, Some(root_document.clone()));
            let expected = b"HTTP/1.1 200 OK\r\nContent-Type: text/html\r\nContent-Length: 33\r\n\r\n<html><body>welcome</body></html>";
            assert_eq!(response, expected.to_vec());
            assert_eq!(root_document.len(), 33);
        }
        _ => panic!("expected the root path to be served"),
    }
}

#[test]
fn malformed_line_does_not_stop_later_requests() {
    match plan_request(b"garbage", b"output") {
        RequestPlan::Malformed => {}
        _ => panic!("expected a malformed request"),
    }
    match plan_request(b"GET / HTTP/1.1", b"output") {
        RequestPlan::Get { target } => {
            assert_eq!(target.full_path, b"output/home".to_vec());
            assert_eq!(target.content_type, "text/html");
        }
        _ => panic!("expected the next request to be served"),
    }
}
