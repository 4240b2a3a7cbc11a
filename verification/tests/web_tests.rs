use pjp::Command;
use pjp::HttpMethod;
use pjp::HttpRequest;
use pjp::HttpResponseCode;
use pjp::decide_add;
use pjp::decide_skip_to;
use pjp::format_response;
use pjp::parse_usize;
use pjp::route;
use pjp::usize_to_string;

#[test]
fn parses_method_tokens() {
    assert!(matches!(HttpMethod::from_str("GET"), Ok(HttpMethod::Get)));
    assert!(matches!(HttpMethod::from_str("POST"), Ok(HttpMethod::Post)));
    assert!(matches!(HttpMethod::from_str("PATCH"), Ok(HttpMethod::Patch)));
    assert!(matches!(HttpMethod::from_str("PUT"), Ok(HttpMethod::Put)));
    assert!(matches!(HttpMethod::from_str("DELETE"), Ok(HttpMethod::Delete)));
    assert!(HttpMethod::from_str("BREW").is_err());
    assert!(HttpMethod::from_str("get").is_err());
}

#[test]
fn parses_request_head() {
    let lines = vec![
        "POST /add HTTP/1.1".to_string(),
        "Content-Type: application/json".to_string(),
        "Content-Length: 12".to_string(),
    ];
    let req = HttpRequest::from_lines(&lines).unwrap();
    assert!(matches!(req.method, HttpMethod::Post));
    assert_eq!(req.path, "/add");
    assert_eq!(req.version, "HTTP/1.1");
    assert_eq!(req.headers.len(), 2);
    assert_eq!(req.headers[0].0, "content-type");
    assert_eq!(req.headers[0].1, "application/json");
    assert_eq!(req.headers[1].0, "content-length");
    assert_eq!(req.headers[1].1, "12");
    assert_eq!(req.content_length(), Some(12));
    assert_eq!(req.body, "");
}

#[test]
fn refuses_malformed_request_head() {
    assert!(HttpRequest::from_lines(&vec!["GET".to_string()]).is_err());
    assert!(HttpRequest::from_lines(&vec!["BREW / HTTP/1.1".to_string()]).is_err());
    assert!(
        HttpRequest::from_lines(
            &vec!["GET / HTTP/1.1".to_string(), "no separator here".to_string()],
        ).is_err()
    );
}

#[test]
fn empty_request_head_parses_to_defaults() {
    let req = HttpRequest::from_lines(&Vec::new()).unwrap();
    assert!(matches!(req.method, HttpMethod::Get));
    assert_eq!(req.path, "");
    assert!(req.content_length().is_none());
}

#[test]
fn parses_decimal_numbers() {
    assert_eq!(parse_usize("0"), Some(0));
    assert_eq!(parse_usize("12345"), Some(12345));
    assert_eq!(parse_usize(""), None);
    assert_eq!(parse_usize("12a"), None);
    assert_eq!(parse_usize("-4"), None);
    assert_eq!(parse_usize("99999999999999999999999999999"), None);
}

#[test]
fn renders_decimal_text() {
    assert_eq!(usize_to_string(0), "0");
    assert_eq!(usize_to_string(7), "7");
    assert_eq!(usize_to_string(44100), "44100");
}

#[test]
fn routes_the_control_surface() {
    assert_eq!(route(&HttpMethod::Get, "/status"), Command::Status);
    assert_eq!(route(&HttpMethod::Post, "/clear"), Command::Clear);
    assert_eq!(route(&HttpMethod::Post, "/next"), Command::Next);
    assert_eq!(route(&HttpMethod::Post, "/pause"), Command::Pause);
    assert_eq!(route(&HttpMethod::Post, "/play"), Command::Play);
    assert_eq!(route(&HttpMethod::Post, "/toggle"), Command::Toggle);
    assert_eq!(route(&HttpMethod::Post, "/add"), Command::Add);
    assert_eq!(route(&HttpMethod::Post, "/skip-to"), Command::SkipTo);
    assert_eq!(route(&HttpMethod::Post, "/status"), Command::NotFound);
    assert_eq!(route(&HttpMethod::Get, "/play"), Command::NotFound);
    assert_eq!(route(&HttpMethod::Get, "/nothing"), Command::NotFound);
}

#[test]
fn formats_a_bare_response() {
    let r = format_response(&HttpResponseCode::NotFound, &Vec::new(), None);
    assert_eq!(r, "HTTP/1.1 404 Not Found\r\n\r\n");
}

#[test]
fn formats_a_json_response() {
    let body = "{\"a\":1}".to_string();
    let headers = vec![("X-Player".to_string(), "pjp".to_string())];
    let r = format_response(&HttpResponseCode::Okay, &headers, Some(&body));
    assert_eq!(
        r,
        "HTTP/1.1 200 OK\r\nX-Player: pjp\r\nContent-Type: application/json\r\nContent-Length: 7\r\n\r\n{\"a\":1}"
    );
}

#[test]
fn accepts_a_json_path_array() {
    let paths = decide_add("[\"x.mp3\", \"y.mp3\"]").unwrap();
    assert_eq!(paths, vec!["x.mp3".to_string(), "y.mp3".to_string()]);
}

#[test]
fn malformed_add_body_is_a_client_error() {
    assert_eq!(decide_add("not json").unwrap_err(), HttpResponseCode::BadRequest);
    assert_eq!(decide_add("{\"a\":1}").unwrap_err(), HttpResponseCode::BadRequest);
}

#[test]
fn accepts_a_json_index() {
    assert_eq!(decide_skip_to("3").unwrap(), 3);
}

#[test]
fn malformed_skip_body_is_a_client_error() {
    assert_eq!(decide_skip_to("\"three\"").unwrap_err(), HttpResponseCode::BadRequest);
    assert_eq!(decide_skip_to("-1").unwrap_err(), HttpResponseCode::BadRequest);
}

#[test]
fn formats_a_server_sent_event() {
    let r = pjp::format_sse(7, "now-playing", "{}");
    assert_eq!(r, "id: 7\nevent: now-playing\ndata: {}\n\n");
}

#[test]
fn status_lines_spell_their_codes() {
    assert_eq!(HttpResponseCode::Okay.status_line(), "200 OK");
    assert_eq!(HttpResponseCode::BadRequest.status_line(), "400 Bad Request");
    assert_eq!(HttpResponseCode::NotFound.status_line(), "404 Not Found");
    assert_eq!(
        HttpResponseCode::InternalServerError.status_line(),
        "500 Internal Server Error"
    );
}
