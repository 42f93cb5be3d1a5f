use dinotty::wire::{
    classify_relay_frame, decode_or_empty, forward_to_mobile, forwards_header, frame_is_binary,
    http_request_frame, http_response_frame, is_control_frame_type, proxy_error_frame, match_http_response, parse_http_request,
    request_method, route_stream_frame, sends_body, tunnel_frame_for, HttpMethod, RelayCommand,
    StreamAction, TunnelFrame, WsMessage,
};

#[test]
fn json_members_are_read_from_objects() {
    // string member present, boolean member read, unsigned member read
    let f = br#"{"type":"http_resp","req_id":"r","status":201,"body":"aGk="}"#;
    let p = match_http_response(f, "r").unwrap();
    assert_eq!(p.status, 201);
    assert_eq!(p.body, b"hi".to_vec());
    // a number where a string is expected is not a string member
    assert!(match_http_response(br#"{"type":"http_resp","req_id":5}"#, "5").is_none());
    // not JSON at all
    assert!(match_http_response(b"not json", "r").is_none());
    // an out-of-range status falls back to 500; a 16-bit cut is taken first
    let big = br#"{"type":"http_resp","req_id":"r","status":65736}"#;
    assert_eq!(match_http_response(big, "r").unwrap().status, 200);
    let bad = br#"{"type":"http_resp","req_id":"r","status":42}"#;
    assert_eq!(match_http_response(bad, "r").unwrap().status, 500);
    let neg = br#"{"type":"http_resp","req_id":"r","status":-1}"#;
    assert_eq!(match_http_response(neg, "r").unwrap().status, 500);
}

#[test]
fn base64_payloads() {
    assert_eq!(decode_or_empty("aGVsbG8="), b"hello".to_vec());
    assert_eq!(decode_or_empty("***"), Vec::<u8>::new());
    assert_eq!(decode_or_empty("aGk="), b"hi".to_vec());
}

#[test]
fn request_frames_keep_end_to_end_headers() {
    let headers = vec![
        ("Host".to_string(), Some("relay.example".to_string())),
        ("Content-Type".to_string(), Some("text/plain".to_string())),
        ("x-bin".to_string(), None),
        ("Connection".to_string(), Some("upgrade".to_string())),
        ("accept".to_string(), Some("*/*".to_string())),
    ];
    let f = http_request_frame("POST", "/api/x?y=1", &headers, b"hello");
    assert_eq!(f.req_id.len(), 36);
    assert_eq!(f.method, "POST");
    assert_eq!(f.path, "/api/x?y=1");
    assert_eq!(
        f.headers,
        vec![
            ("content-type".to_string(), "text/plain".to_string()),
            ("accept".to_string(), "*/*".to_string()),
        ]
    );
    assert_eq!(f.body, "aGVsbG8=");
    assert_eq!(decode_or_empty(&f.body), b"hello".to_vec());
}

#[test]
fn stream_frames_are_routed() {
    let data = br#"{"type":"ws_data","stream_id":"s1","data":"aGk=","binary":true}"#;
    match route_stream_frame(data, "s1") {
        StreamAction::Deliver { data, binary } => {
            assert_eq!(data, b"hi".to_vec());
            assert!(binary);
        },
        other => panic!("unexpected {:?}", other),
    }
    assert!(matches!(route_stream_frame(data, "s2"), StreamAction::Ignore));
    let text = br#"{"type":"ws_data","stream_id":"s1","data":"aGk="}"#;
    match route_stream_frame(text, "s1") {
        StreamAction::Deliver { binary, .. } => assert!(!binary),
        other => panic!("unexpected {:?}", other),
    }
    let close = br#"{"type":"ws_close","stream_id":"s1"}"#;
    assert!(matches!(route_stream_frame(close, "s1"), StreamAction::Close));
}

#[test]
fn http_responses_match_their_request() {
    let f = br#"{"type":"http_resp","req_id":"r9","status":404,"body":"bm8="}"#;
    let parts = match_http_response(f, "r9").unwrap();
    assert_eq!(parts.status, 404);
    assert_eq!(parts.body, b"no".to_vec());
    assert!(match_http_response(f, "r1").is_none());
}

#[test]
fn http_requests_get_defaults() {
    let p = parse_http_request(br#"{"type":"http_req"}"#);
    assert_eq!(p.req_id, "");
    assert_eq!(p.method, "GET");
    assert_eq!(p.path, "/");
    assert!(p.body.is_empty());
    let q = parse_http_request(br#"{"type":"http_req","req_id":"a","method":"POST","path":"/api","body":"eA=="}"#);
    assert_eq!(q.method, "POST");
    assert_eq!(q.path, "/api");
    assert_eq!(q.body, b"x".to_vec());
}

#[test]
fn methods_and_bodies() {
    assert_eq!(request_method("POST"), HttpMethod::Post);
    assert_eq!(request_method("HEAD"), HttpMethod::Head);
    assert_eq!(request_method("post"), HttpMethod::Get);
    assert!(sends_body("PUT", &vec![1]));
    assert!(!sends_body("GET", &vec![1]));
    assert!(!sends_body("POST", &vec![]));
}

#[test]
fn hop_by_hop_headers_stay() {
    assert!(!forwards_header("host"));
    assert!(!forwards_header("sec-websocket-key"));
    assert!(forwards_header("content-type"));
}

#[test]
fn control_frames_do_not_reach_phones() {
    assert!(is_control_frame_type("ws_open"));
    assert!(!is_control_frame_type("screen"));
    assert!(!forward_to_mobile(br#"{"type":"http_resp"}"#));
    assert!(forward_to_mobile(br#"{"type":"screen"}"#));
    assert!(forward_to_mobile(b"raw bytes"));
}

#[test]
fn binary_frames_have_non_ascii_bytes() {
    assert!(!frame_is_binary(b"plain"));
    assert!(frame_is_binary(&[0x41, 0xC3, 0xA9]));
}

#[test]
fn bridged_messages_become_tunnel_frames() {
    match tunnel_frame_for(&WsMessage::Text("hi".to_string()), "s") {
        Some(TunnelFrame::Data { stream_id, data, binary }) => {
            assert_eq!(stream_id, "s");
            assert_eq!(data, "aGk=");
            assert!(!binary);
        },
        other => panic!("unexpected {:?}", other),
    }
    match tunnel_frame_for(&WsMessage::Binary(vec![0xff]), "s") {
        Some(TunnelFrame::Data { data, binary, .. }) => {
            assert_eq!(data, "/w==");
            assert!(binary);
        },
        other => panic!("unexpected {:?}", other),
    }
    assert!(matches!(tunnel_frame_for(&WsMessage::Close, "s"), Some(TunnelFrame::Close { .. })));
    assert!(tunnel_frame_for(&WsMessage::Ping, "s").is_none());
}

#[test]
fn relay_frames_are_classified() {
    match classify_relay_frame(br#"{"type":"input","data":"ls\n","pane_id":"p1"}"#) {
        RelayCommand::Input { data, pane_id } => {
            assert_eq!(data, "ls\n");
            assert_eq!(pane_id, Some("p1".to_string()));
        },
        other => panic!("unexpected {:?}", other),
    }
    assert!(matches!(classify_relay_frame(br#"{"type":"input"}"#), RelayCommand::Ignore));
    match classify_relay_frame(br#"{"type":"ws_open","stream_id":"k"}"#) {
        RelayCommand::WsOpen { stream_id, path } => {
            assert_eq!(stream_id, "k");
            assert_eq!(path, "/ws");
        },
        other => panic!("unexpected {:?}", other),
    }
    match classify_relay_frame(br#"{"type":"ws_data","stream_id":"k","data":"eQ=="}"#) {
        RelayCommand::WsData { data, binary, .. } => {
            assert_eq!(data, b"y".to_vec());
            assert!(!binary);
        },
        other => panic!("unexpected {:?}", other),
    }
    assert!(matches!(
        classify_relay_frame(br#"{"type":"ws_close","stream_id":"k"}"#),
        RelayCommand::WsClose { .. }
    ));
    match classify_relay_frame(br#"{"type":"http_req","req_id":"7"}"#) {
        RelayCommand::HttpRequest(p) => assert_eq!(p.req_id, "7"),
        other => panic!("unexpected {:?}", other),
    }
    assert!(matches!(classify_relay_frame(b"{}"), RelayCommand::Ignore));
}

#[test]
fn response_frames_carry_text_headers_and_body() {
    let headers = vec![
        ("content-type".to_string(), Some("application/json".to_string())),
        ("x-raw".to_string(), None),
        ("connection".to_string(), Some("close".to_string())),
    ];
    let f = http_response_frame("r1", 201, &headers, b"{}");
    assert_eq!(f.req_id, "r1");
    assert_eq!(f.status, 201);
    assert_eq!(
        f.headers,
        vec![
            ("content-type".to_string(), "application/json".to_string()),
            ("connection".to_string(), "close".to_string()),
        ]
    );
    assert_eq!(f.body, "e30=");
}

#[test]
fn unreachable_local_server_gives_502() {
    let f = proxy_error_frame("r2", "connection refused");
    assert_eq!(f.req_id, "r2");
    assert_eq!(f.status, 502);
    assert!(f.headers.is_empty());
    assert_eq!(decode_or_empty(&f.body), b"proxy error: connection refused".to_vec());
}

#[test]
fn frame_headers_keep_string_members() {
    let f = br#"{"type":"http_resp","req_id":"r","status":200,"headers":{"content-type":"text/html","x-n":5,"etag":"abc"}}"#;
    let p = match_http_response(f, "r").unwrap();
    let mut hs = p.headers.clone();
    hs.sort();
    assert_eq!(hs, vec![("content-type".to_string(), "text/html".to_string()), ("etag".to_string(), "abc".to_string())]);
    let q = parse_http_request(br#"{"type":"http_req","headers":{"accept":"*/*","n":null}}"#);
    assert_eq!(q.headers, vec![("accept".to_string(), "*/*".to_string())]);
    assert!(parse_http_request(br#"{"type":"http_req","headers":[1]}"#).headers.is_empty());
}

#[test]
fn frame_headers_drop_invalid_names_and_values() {
    let f = br#"{"type":"http_resp","req_id":"r","headers":{"bad name":"x","x-ok":"fine","x-nl":"a\nb","x-tab":"a\tb"}}"#;
    let p = match_http_response(f, "r").unwrap();
    assert_eq!(p.headers, vec![("x-ok".to_string(), "fine".to_string()), ("x-tab".to_string(), "a\tb".to_string())]);
    let q = parse_http_request(br#"{"type":"http_req","headers":{"":"x","accept":"*/*","x-del":"a\u007fb"}}"#);
    assert_eq!(q.headers, vec![("accept".to_string(), "*/*".to_string())]);
}
