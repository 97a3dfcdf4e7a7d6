use condey::condey::{finish_response, handler_failure_response, join_mount_path, SERVER_NAME};
use condey::response::{form_response, json_response, rejection_status, Rejection};
use condey::{Responder, Response, Status, StatusCode};

fn header<'a>(r: &'a Response, name: &str) -> Option<&'a str> {
    r.headers.iter().find(|(k, _)| k == name).map(|(_, v)| v.as_str())
}

#[test]
fn string_is_plain_text() {
    let r = "hello".to_string().respond_to();
    assert_eq!(r.status.as_u16(), 200);
    assert_eq!(header(&r, "content-type"), Some("text/plain"));
    assert_eq!(r.body, b"hello".to_vec());
}

#[test]
fn bytes_are_octet_stream() {
    let r = vec![1u8, 2, 3].respond_to();
    assert_eq!(r.status.as_u16(), 200);
    assert_eq!(header(&r, "content-type"), Some("application/octet-stream"));
    assert_eq!(r.body, vec![1, 2, 3]);
}

#[test]
fn status_code_is_empty() {
    let r = StatusCode::from_u16(201).unwrap().respond_to();
    assert_eq!(r.status.as_u16(), 201);
    assert!(r.headers.is_empty());
    assert!(r.body.is_empty());
    assert!(StatusCode::from_u16(99).is_none());
    assert!(StatusCode::from_u16(1000).is_none());
}

#[test]
fn option_and_result_delegate() {
    let none: Option<String> = None;
    assert_eq!(none.respond_to().status.as_u16(), 404);
    let some = Some("x".to_string()).respond_to();
    assert_eq!(some.status.as_u16(), 200);
    let err: Result<String, StatusCode> = Err(StatusCode::bad_request());
    assert_eq!(err.respond_to().status.as_u16(), 400);
    let ok: Result<String, StatusCode> = Ok("y".to_string());
    assert_eq!(ok.respond_to().body, b"y".to_vec());
}

#[test]
fn status_decorator_overrides_status_only() {
    let r = Status::<String, 201>::new("made".to_string()).respond_to();
    assert_eq!(r.status.as_u16(), 201);
    assert_eq!(header(&r, "content-type"), Some("text/plain"));
    assert_eq!(r.body, b"made".to_vec());
    let r = "gone".to_string().status::<410>().respond_to();
    assert_eq!(r.status.as_u16(), 410);
}

#[test]
fn json_item_end_to_end_body() {
    let mut item = serde_json::Map::new();
    item.insert("id".to_string(), serde_json::Value::from(7u64));
    item.insert("name".to_string(), serde_json::Value::from("item 7"));
    let bytes = serde_json::to_vec(&serde_json::Value::Object(item)).unwrap();
    let r = finish_response(json_response(bytes));
    assert_eq!(r.status.as_u16(), 200);
    assert_eq!(header(&r, "content-type"), Some("application/json"));
    assert_eq!(header(&r, "server"), Some(SERVER_NAME));
    assert_eq!(String::from_utf8(r.body).unwrap(), "{\"id\":7,\"name\":\"item 7\"}");
}

#[test]
fn form_response_type() {
    let r = form_response(b"a=1".to_vec());
    assert_eq!(header(&r, "content-type"), Some("application/x-www-form-urlencoded"));
}

#[test]
fn server_header_is_replaced() {
    let r = Response {
        status: StatusCode::ok(),
        headers: vec![
            ("server".to_string(), "other".to_string()),
            ("x-a".to_string(), "1".to_string()),
        ],
        body: vec![],
    };
    let r = finish_response(r);
    assert_eq!(
        r.headers,
        vec![
            ("x-a".to_string(), "1".to_string()),
            ("server".to_string(), SERVER_NAME.to_string())
        ]
    );
    let f = handler_failure_response();
    assert_eq!(f.status.as_u16(), 500);
}

#[test]
fn mount_path_has_one_slash() {
    assert_eq!(join_mount_path("/api/", "/x"), "/api/x");
    assert_eq!(join_mount_path("", "x"), "/x");
    assert_eq!(join_mount_path("/api", ""), "/api/");
}

#[test]
fn rejection_statuses_by_kind() {
    assert_eq!(rejection_status(Rejection::MalformedBody).as_u16(), 400);
    assert_eq!(rejection_status(Rejection::MalformedHead).as_u16(), 400);
    assert_eq!(rejection_status(Rejection::MissingState).as_u16(), 500);
    assert_eq!(rejection_status(Rejection::PathMismatch).as_u16(), 500);
    assert_eq!(Status::<String, 418>::new("x".to_string()).status_code().as_u16(), 418);
}
