use armature_lambda::{EventResponse, LambdaBody, LambdaResponse};

fn text_body(response: &EventResponse) -> &str {
    match &response.body {
        LambdaBody::Text(s) => s,
        other => panic!("expected text body, got {other:?}"),
    }
}

fn binary_body(response: &EventResponse) -> &[u8] {
    match &response.body {
        LambdaBody::Binary(b) => b,
        other => panic!("expected binary body, got {other:?}"),
    }
}

fn header_lines<'a>(response: &'a EventResponse, name: &str) -> Vec<&'a str> {
    response
        .headers
        .iter()
        .filter(|(n, _)| n.eq_ignore_ascii_case(name))
        .map(|(_, v)| v.as_str())
        .collect()
}

#[test]
fn utf8_body_maps_to_text() {
    let resp = LambdaResponse::ok(b"hello world".to_vec());
    let lambda = resp.into_lambda_response();
    assert_eq!(lambda.status, 200);
    assert_eq!(text_body(&lambda), "hello world");
}

#[test]
fn base64_flag_forces_binary_body() {
    let resp = LambdaResponse::ok(b"hello".to_vec()).base64();
    let lambda = resp.into_lambda_response();
    assert_eq!(binary_body(&lambda), b"hello");
}

#[test]
fn non_utf8_body_maps_to_binary() {
    let resp = LambdaResponse::new(200, vec![0xff, 0xfe, 0x00]);
    let lambda = resp.into_lambda_response();
    assert_eq!(binary_body(&lambda), &[0xff, 0xfe, 0x00]);
}

#[test]
fn headers_are_forwarded() {
    let resp = LambdaResponse::json(b"{\"ok\":true}".to_vec());
    let lambda = resp.into_lambda_response();
    assert_eq!(header_lines(&lambda, "content-type"), vec!["application/json"]);
    assert_eq!(text_body(&lambda), "{\"ok\":true}");
}

#[test]
fn duplicate_headers_are_all_emitted() {
    let resp = LambdaResponse::ok(b"x".to_vec())
        .header("set-cookie", "a=1")
        .header("set-cookie", "b=2");
    let lambda = resp.into_lambda_response();
    let cookies = header_lines(&lambda, "set-cookie");
    assert_eq!(cookies, vec!["a=1", "b=2"]);
}

#[test]
fn set_header_replaces_existing_lines() {
    let resp = LambdaResponse::ok(b"x".to_vec())
        .header("content-type", "text/plain")
        .set_header("content-type", "application/json");
    assert_eq!(resp.header_values("content-type").len(), 1);
    assert_eq!(resp.header_value("content-type"), Some("application/json"));
}

#[test]
fn error_response_sets_status_and_json() {
    let resp = LambdaResponse::not_found();
    assert_eq!(resp.status, 404);
    let lambda = resp.into_lambda_response();
    assert_eq!(lambda.status, 404);
    assert!(text_body(&lambda).contains("Not Found"));
}

#[test]
fn error_body_is_the_json_error_object() {
    let resp = LambdaResponse::error(418, "teapot \"short\"");
    assert_eq!(resp.status, 418);
    assert_eq!(resp.body, b"{\"error\":\"teapot \\\"short\\\"\"}".to_vec());
    assert_eq!(resp.header_value("Content-Type"), Some("application/json"));
    assert!(!resp.is_base64);
}

#[test]
fn error_body_escapes_control_characters() {
    let resp = LambdaResponse::error(400, "a\\b\n\u{1}é");
    assert_eq!(resp.body, "{\"error\":\"a\\\\b\\n\\u0001é\"}".as_bytes().to_vec());
}

#[test]
fn not_found_and_internal_error_bodies() {
    assert_eq!(LambdaResponse::not_found().body, b"{\"error\":\"Not Found\"}".to_vec());
    let resp = LambdaResponse::internal_error("boom");
    assert_eq!(resp.status, 500);
    assert_eq!(resp.body, b"{\"error\":\"boom\"}".to_vec());
}

#[test]
fn header_lookup_is_case_insensitive_and_ordered() {
    let resp = LambdaResponse::default()
        .header("Set-Cookie", "a=1")
        .header("x-other", "z")
        .header("set-cookie", "b=2");
    assert_eq!(resp.header_values("SET-COOKIE"), vec!["a=1", "b=2"]);
    assert_eq!(resp.header_value("set-cookie"), Some("a=1"));
    assert_eq!(resp.header_value("missing"), None);
    assert!(resp.header_values("missing").is_empty());
}

#[test]
fn set_header_matches_names_case_insensitively() {
    let resp = LambdaResponse::default()
        .header("Content-Type", "text/plain")
        .header("x-keep", "1")
        .set_header("content-type", "text/html");
    assert_eq!(
        resp.headers,
        vec![
            ("x-keep".to_string(), "1".to_string()),
            ("content-type".to_string(), "text/html".to_string()),
        ]
    );
}

#[test]
fn content_type_replaces_content_type() {
    let resp = LambdaResponse::json(b"[]".to_vec()).content_type("text/csv");
    assert_eq!(resp.header_values("content-type"), vec!["text/csv"]);
}

#[test]
fn default_response_is_empty_ok() {
    let resp = LambdaResponse::default();
    assert_eq!(resp.status, 200);
    assert!(resp.headers.is_empty());
    assert!(resp.body.is_empty());
    assert!(!resp.is_base64);
}

#[test]
fn empty_body_maps_to_empty_text() {
    let lambda = LambdaResponse::default().into_lambda_response();
    assert_eq!(text_body(&lambda), "");
}

#[test]
fn invalid_status_falls_back_to_internal_error() {
    for status in [0u16, 99, 1000] {
        let lambda = LambdaResponse::new(status, b"x".to_vec())
            .header("x-a", "1")
            .into_lambda_response();
        assert_eq!(lambda.status, 500);
        assert!(lambda.headers.is_empty());
        assert_eq!(text_body(&lambda), "Internal Server Error");
    }
    assert_eq!(LambdaResponse::new(100, Vec::new()).into_lambda_response().status, 100);
    assert_eq!(LambdaResponse::new(999, Vec::new()).into_lambda_response().status, 999);
}

#[test]
fn invalid_header_name_falls_back_to_internal_error() {
    let lambda = LambdaResponse::ok(b"x".to_vec())
        .header("bad name", "1")
        .into_lambda_response();
    assert_eq!(lambda.status, 500);
    assert_eq!(text_body(&lambda), "Internal Server Error");
}

#[test]
fn invalid_header_value_falls_back_to_internal_error() {
    let lambda = LambdaResponse::ok(b"x".to_vec())
        .header("x-a", "line\nbreak")
        .into_lambda_response();
    assert_eq!(lambda.status, 500);
    let lambda = LambdaResponse::ok(b"x".to_vec())
        .header("x-a", "tab\tand é")
        .into_lambda_response();
    assert_eq!(lambda.status, 200);
    assert_eq!(header_lines(&lambda, "x-a"), vec!["tab\tand é"]);
}

#[test]
fn headers_keep_their_order_and_case() {
    let lambda = LambdaResponse::ok(b"x".to_vec())
        .header("X-B", "2")
        .header("x-a", "1")
        .into_lambda_response();
    assert_eq!(
        lambda.headers,
        vec![
            ("X-B".to_string(), "2".to_string()),
            ("x-a".to_string(), "1".to_string()),
        ]
    );
}

#[test]
fn header_name_bytes_decide_acceptance() {
    let ok = LambdaResponse::ok(b"x".to_vec())
        .header("X-Tok!#$%&'*+-.^_`|~09", "v")
        .into_lambda_response();
    assert_eq!(ok.status, 200);
    for bad in ["", "x-é", "a:b", "a\"b", "a/b"] {
        let lambda = LambdaResponse::ok(b"x".to_vec())
            .header(bad, "v")
            .into_lambda_response();
        assert_eq!(lambda.status, 500, "name {bad:?}");
    }
}
