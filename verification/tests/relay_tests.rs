use dinotty::relay::{
    check_password, desktop_frame_step, is_ws_upgrade, mobile_frame_action, parse_relay_args,
    is_valid_hello, register_desktop, relay_password, resolve_desktop_id, static_target,
    ws_proxy_target, AuthHeaders, DesktopRegistry, IdTable, FrameAction, RegisterOutcome, RelayCommandLine, StaticTarget, WsProxyError,
};
use dinotty::wire::WsMessage;

fn bearer(token: &str) -> AuthHeaders {
    AuthHeaders { authorization: Some(token.to_string()), x_relay_token: None }
}

#[test]
fn password_matching_returns_true() {
    let expected = "hunter2".to_string();
    let h = bearer("Bearer hunter2");
    assert!(check_password(&h, &expected));
}

#[test]
fn wrong_password_returns_false() {
    let expected = "hunter2".to_string();
    let h = bearer("Bearer wrong");
    assert!(!check_password(&h, &expected));
}

#[test]
fn wrong_length_returns_false() {
    let expected = "hunter2".to_string();
    let h = bearer("Bearer hunter");
    assert!(!check_password(&h, &expected));
}

#[test]
fn missing_auth_header_returns_false() {
    let expected = "hunter2".to_string();
    let h = AuthHeaders { authorization: None, x_relay_token: None };
    assert!(!check_password(&h, &expected));
}

#[test]
fn x_relay_token_header_works_as_alternative() {
    let expected = "hunter2".to_string();
    let h = AuthHeaders { authorization: None, x_relay_token: Some("hunter2".to_string()) };
    assert!(check_password(&h, &expected));
}

#[test]
fn authorization_without_bearer_falls_back_to_token_header() {
    let h = AuthHeaders {
        authorization: Some("Basic abc".to_string()),
        x_relay_token: Some("hunter2".to_string()),
    };
    assert!(check_password(&h, "hunter2"));
    let h2 = AuthHeaders {
        authorization: Some("Bearer nope".to_string()),
        x_relay_token: Some("hunter2".to_string()),
    };
    assert!(!check_password(&h2, "hunter2"));
}

#[test]
fn registration_outcomes() {
    let good = bearer("Bearer pw");
    let mut reg: DesktopRegistry<u32> = DesktopRegistry::new();
    assert_eq!(register_desktop(&mut reg, &good, "pw", "desk-1".to_string(), 1), RegisterOutcome::Registered);
    assert_eq!(reg.get("desk-1"), Some(&1));
    assert_eq!(register_desktop(&mut reg, &good, "pw", "".to_string(), 2), RegisterOutcome::InvalidId);
    let long = "x".repeat(129);
    assert_eq!(register_desktop(&mut reg, &good, "pw", long.clone(), 3), RegisterOutcome::InvalidId);
    assert_eq!(reg.get(&long), None);
    assert_eq!(register_desktop(&mut reg, &good, "pw", "x".repeat(128), 4), RegisterOutcome::Registered);
    assert_eq!(
        register_desktop(&mut reg, &bearer("Bearer bad"), "pw", "desk-1".to_string(), 5),
        RegisterOutcome::Unauthorized
    );
    assert_eq!(reg.get("desk-1"), Some(&1));
    // re-registering replaces the slot and keeps one entry per id
    assert_eq!(register_desktop(&mut reg, &good, "pw", "desk-1".to_string(), 6), RegisterOutcome::Registered);
    assert_eq!(reg.get("desk-1"), Some(&6));
    let mut ids = reg.ids();
    ids.sort();
    assert_eq!(ids, vec!["desk-1".to_string(), "x".repeat(128)]);
    assert_eq!(RegisterOutcome::Unauthorized.status(), 401);
    assert_eq!(RegisterOutcome::Unauthorized.message(), "wrong password");
    assert_eq!(RegisterOutcome::InvalidId.status(), 400);
    assert_eq!(RegisterOutcome::InvalidId.message(), "desktop_id invalid");
    assert_eq!(RegisterOutcome::Registered.status(), 200);
}

#[test]
fn hello_must_name_version_one_and_the_desktop() {
    assert!(is_valid_hello(br#"{"v":1,"desktop_id":"d1"}"#, "d1"));
    assert!(!is_valid_hello(br#"{"v":2,"desktop_id":"d1"}"#, "d1"));
    assert!(!is_valid_hello(br#"{"v":1,"desktop_id":"d2"}"#, "d1"));
    assert!(!is_valid_hello(br#"{"desktop_id":"d1"}"#, "d1"));
    assert!(!is_valid_hello(b"hello", "d1"));
}

#[test]
fn desktop_is_chosen_from_query_or_single_registration() {
    let one = vec!["a".to_string()];
    let two = vec!["a".to_string(), "b".to_string()];
    assert_eq!(resolve_desktop_id(&two, "x=1&desktop_id=b"), Some("b".to_string()));
    assert_eq!(resolve_desktop_id(&one, ""), Some("a".to_string()));
    assert_eq!(resolve_desktop_id(&two, "x=1"), None);
    assert_eq!(resolve_desktop_id(&two, "desktop_id=zz"), Some("zz".to_string()));
    assert_eq!(ws_proxy_target(&two, "desktop_id=a"), Ok("a".to_string()));
    assert_eq!(ws_proxy_target(&two, ""), Err(WsProxyError::NoDesktopChosen));
    assert_eq!(ws_proxy_target(&two, "desktop_id=zz"), Err(WsProxyError::DesktopNotRegistered));
}

#[test]
fn phone_frames() {
    match mobile_frame_action(Some(&WsMessage::Text("hi".to_string()))) {
        FrameAction::Forward(b) => assert_eq!(b, b"hi".to_vec()),
        other => panic!("unexpected {:?}", other),
    }
    match mobile_frame_action(Some(&WsMessage::Binary(vec![1, 2]))) {
        FrameAction::Forward(b) => assert_eq!(b, vec![1, 2]),
        other => panic!("unexpected {:?}", other),
    }
    assert!(matches!(mobile_frame_action(Some(&WsMessage::Ping)), FrameAction::Skip));
    assert!(matches!(mobile_frame_action(Some(&WsMessage::Close)), FrameAction::Stop));
    assert!(matches!(mobile_frame_action(None), FrameAction::Stop));
}

#[test]
fn desktop_must_say_hello_first() {
    let hello = WsMessage::Text("{\"type\":\"hello\"}".to_string());
    let (seen, action) = desktop_frame_step(false, Some(&hello), true);
    assert!(seen);
    assert!(matches!(action, FrameAction::Skip));
    let (seen, action) = desktop_frame_step(false, Some(&WsMessage::Binary(vec![0])), false);
    assert!(!seen);
    assert!(matches!(action, FrameAction::Stop));
    let (seen, action) = desktop_frame_step(true, Some(&WsMessage::Binary(vec![7])), false);
    assert!(seen);
    match action {
        FrameAction::Forward(b) => assert_eq!(b, vec![7]),
        other => panic!("unexpected {:?}", other),
    }
}

#[test]
fn relay_command_line() {
    let args: Vec<String> =
        ["relay", "--listen", "0.0.0.0:9", "--password", "pw", "--cert", "c.pem", "--key"]
            .iter()
            .map(|s| s.to_string())
            .collect();
    match parse_relay_args(&args) {
        RelayCommandLine::Run(a) => {
            assert_eq!(a.listen, Some("0.0.0.0:9".to_string()));
            assert_eq!(a.password, Some("pw".to_string()));
            assert_eq!(a.cert, Some("c.pem".to_string()));
            assert_eq!(a.key, None);
        },
        RelayCommandLine::Help => panic!("not help"),
    }
    let help: Vec<String> = ["relay", "--listen", "x", "-h"].iter().map(|s| s.to_string()).collect();
    assert!(matches!(parse_relay_args(&help), RelayCommandLine::Help));
}

#[test]
fn password_source_order() {
    assert_eq!(relay_password(Some("env".into()), Some("arg".into())), Some("env".to_string()));
    assert_eq!(relay_password(None, Some("arg".into())), Some("arg".to_string()));
    assert_eq!(relay_password(None, None), None);
}

#[test]
fn websocket_upgrade_is_case_insensitive() {
    assert!(is_ws_upgrade(Some("WebSocket")));
    assert!(is_ws_upgrade(Some("websocket")));
    assert!(!is_ws_upgrade(Some("h2c")));
    assert!(!is_ws_upgrade(None));
}

#[test]
fn static_paths() {
    assert!(matches!(static_target("/"), StaticTarget::Index));
    match static_target("/assets/app.js") {
        StaticTarget::Asset(p, t) => {
            assert_eq!(p, "assets/app.js");
            assert_eq!(t, "text/javascript");
        }
        other => panic!("unexpected {:?}", other),
    }
}

#[test]
fn id_table_removes_entries() {
    let mut t: IdTable<u32> = IdTable::new();
    t.register("a".to_string(), 1);
    t.register("b".to_string(), 2);
    assert_eq!(t.remove("a"), Some(1));
    assert_eq!(t.remove("a"), None);
    assert_eq!(t.get("a"), None);
    assert_eq!(t.get("b"), Some(&2));
    assert_eq!(t.ids(), vec!["b".to_string()]);
}
