use dinotty::outbound::{
    app_link_step, bridge_finished, bridge_opened, hello_frame, initial_link_state, input_target,
    relay_link_step, screen_frame, stream_table_step, LinkAction, LinkEvent, LinkState, ScreenState,
    StreamEffect, StreamTable, APP_MAX_BACKOFF_SECS, SCREEN_INTERVAL_MS, SERVER_MAX_BACKOFF_SECS,
};
use dinotty::wire::{RelayCommand, TunnelFrame};

fn s(x: &str) -> String {
    x.to_string()
}

fn wait_of(a: &LinkAction) -> Option<u64> {
    match a {
        LinkAction::Wait(w) => Some(*w),
        _ => None,
    }
}

#[test]
fn hello_names_the_desktop() {
    let h = hello_frame("desk-1");
    assert_eq!(h.v, 1);
    assert_eq!(h.desktop_id, "desk-1");
}

#[test]
fn server_link_backs_off_and_resets() {
    assert_eq!(SERVER_MAX_BACKOFF_SECS, 60);
    let mut st = initial_link_state();
    let (next, a) = relay_link_step(&st, LinkEvent::Start, "d", SERVER_MAX_BACKOFF_SECS, false);
    assert!(matches!(a, LinkAction::Connect));
    st = next;
    let mut waits = vec![];
    for _ in 0..8 {
        let (next, a) = relay_link_step(&st, LinkEvent::ConnectFailed, "d", SERVER_MAX_BACKOFF_SECS, false);
        waits.push(wait_of(&a).unwrap());
        st = next;
    }
    assert_eq!(waits, vec![1, 2, 4, 8, 16, 32, 60, 60]);
    let (next, a) = relay_link_step(&st, LinkEvent::Connected, "d", SERVER_MAX_BACKOFF_SECS, false);
    match a {
        LinkAction::SendHello(h) => assert_eq!(h.desktop_id, "d"),
        other => panic!("unexpected {:?}", other),
    }
    assert_eq!(next, LinkState { backoff_secs: 1 });
    st = next;
    // a failed hello and a lost connection wait without doubling
    let (next, a) = relay_link_step(&st, LinkEvent::HelloFailed, "d", SERVER_MAX_BACKOFF_SECS, false);
    assert_eq!(wait_of(&a), Some(1));
    assert_eq!(next, st);
    let (next, a) = relay_link_step(&st, LinkEvent::HelloSent, "d", SERVER_MAX_BACKOFF_SECS, false);
    assert!(matches!(a, LinkAction::Run));
    let (next2, a) = relay_link_step(&next, LinkEvent::Lost, "d", SERVER_MAX_BACKOFF_SECS, false);
    assert_eq!(wait_of(&a), Some(1));
    assert_eq!(next2.backoff_secs, 1);
    let (_, a) = relay_link_step(&next2, LinkEvent::Waited, "d", SERVER_MAX_BACKOFF_SECS, true);
    assert!(matches!(a, LinkAction::Stop));
}

#[test]
fn app_link_caps_at_thirty_and_doubles_after_a_loss() {
    assert_eq!(APP_MAX_BACKOFF_SECS, 30);
    let mut st = initial_link_state();
    let mut waits = vec![];
    for _ in 0..7 {
        let (next, a) = app_link_step(&st, LinkEvent::ConnectFailed, "d");
        waits.push(wait_of(&a).unwrap());
        st = next;
    }
    assert_eq!(waits, vec![1, 2, 4, 8, 16, 30, 30]);
    // the wait is reset only once the hello was sent
    let (next, a) = app_link_step(&st, LinkEvent::Connected, "d");
    assert!(matches!(a, LinkAction::SendHello(_)));
    assert_eq!(next.backoff_secs, 30);
    let (next, a) = app_link_step(&next, LinkEvent::HelloSent, "d");
    assert!(matches!(a, LinkAction::Run));
    assert_eq!(next.backoff_secs, 1);
    let (next, a) = app_link_step(&next, LinkEvent::Lost, "d");
    assert_eq!(wait_of(&a), Some(1));
    assert_eq!(next.backoff_secs, 2);
}

#[test]
fn input_goes_to_the_named_pane_else_the_active_one() {
    assert_eq!(input_target(Some(s("p2")), Some(s("p1"))), Some(s("p2")));
    assert_eq!(input_target(None, Some(s("p1"))), Some(s("p1")));
    assert_eq!(input_target(None, None), None);
}

#[test]
fn screen_frame_of_the_active_pane() {
    assert_eq!(SCREEN_INTERVAL_MS, 200);
    let sessions = vec![
        ScreenState { pane_id: s("p1"), cols: 80, rows: 24, screen: s("$ ls") },
        ScreenState { pane_id: s("p2"), cols: 100, rows: 30, screen: s("top") },
    ];
    let f = screen_frame(Some("p2"), &sessions).unwrap();
    assert_eq!((f.pane_id.as_str(), f.cols, f.rows, f.screen.as_str()), ("p2", 100, 30, "top"));
    assert!(screen_frame(Some("p9"), &sessions).is_none());
    assert!(screen_frame(None, &sessions).is_none());
}

#[test]
fn stream_table_routes_by_stream_id() {
    let mut t: StreamTable<u8> = StreamTable::new();
    match stream_table_step(&mut t, RelayCommand::WsOpen { stream_id: s("s1"), path: s("/ws") }) {
        StreamEffect::OpenBridge { stream_id, path } => assert_eq!((stream_id.as_str(), path.as_str()), ("s1", "/ws")),
        _ => panic!("expected a bridge"),
    }
    assert!(t.get("s1").is_none());
    // data before the local connection is made is dropped
    let data = RelayCommand::WsData { stream_id: s("s1"), data: vec![104, 105], binary: false };
    assert!(matches!(stream_table_step(&mut t, data.clone()), StreamEffect::Unknown));
    bridge_opened(&mut t, s("s1"), 7);
    match stream_table_step(&mut t, data.clone()) {
        StreamEffect::Deliver { stream_id, data, binary } => {
            assert_eq!(stream_id, "s1");
            assert_eq!(data, vec![104, 105]);
            assert!(!binary);
        }
        _ => panic!("expected delivery"),
    }
    match stream_table_step(&mut t, RelayCommand::WsClose { stream_id: s("s1") }) {
        StreamEffect::CloseLocal { stream_id, slot } => assert_eq!((stream_id.as_str(), slot), ("s1", 7)),
        _ => panic!("expected a close"),
    }
    assert!(t.get("s1").is_none());
    assert!(matches!(stream_table_step(&mut t, data), StreamEffect::Unknown));
    assert!(matches!(
        stream_table_step(&mut t, RelayCommand::WsClose { stream_id: s("s1") }),
        StreamEffect::Unknown
    ));
    match stream_table_step(&mut t, RelayCommand::Ignore) {
        StreamEffect::Other(RelayCommand::Ignore) => {}
        _ => panic!("expected the command back"),
    }
}

#[test]
fn a_finished_bridge_leaves_and_closes() {
    let mut t: StreamTable<u8> = StreamTable::new();
    bridge_opened(&mut t, s("s2"), 1);
    match bridge_finished(&mut t, "s2") {
        TunnelFrame::Close { stream_id } => assert_eq!(stream_id, "s2"),
        _ => panic!("expected ws_close"),
    }
    assert!(t.get("s2").is_none());
}
