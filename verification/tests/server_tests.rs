use dinotty::server::{
    desktop_ws_url, extract_host, git_info_from, inject_auth_token, local_http_url, local_ws_url,
    new_token, next_backoff, outbound_target, page_token, page_token_from, parse_args,
    server_args_valid, token_configured, ws_target, accept_address, StaticFiles, UrlError,
};

fn args(v: &[&str]) -> Vec<String> {
    v.iter().map(|s| s.to_string()).collect()
}

#[test]
fn command_line_options() {
    let a = args(&["server", "--port", "9000", "--relay-outbound", "wss://r.example", "pw"]);
    assert!(server_args_valid(&a));
    let p = parse_args(&a);
    assert_eq!(p.port, 9000);
    assert_eq!(p.relay_url, Some("wss://r.example".to_string()));
    assert_eq!(p.relay_password, Some("pw".to_string()));
    assert_eq!(p.relay_desktop_id, None);
    let b = parse_args(&args(&["server", "--port=7000", "--relay-desktop-id", "d1"]));
    assert_eq!(b.port, 7000);
    assert_eq!(b.relay_desktop_id, Some("d1".to_string()));
    assert_eq!(parse_args(&args(&["server"])).port, 8999);
    assert!(!server_args_valid(&args(&["server", "-p", "70000"])));
    assert!(!server_args_valid(&args(&["server", "--port=abc"])));
}

#[test]
fn host_header_of_a_url() {
    assert_eq!(extract_host("wss://relay.example:443/relay/x"), "relay.example:443");
    assert_eq!(extract_host("ws://h:1"), "h:1");
    assert_eq!(extract_host("plain/path"), "plain");
}

#[test]
fn websocket_targets() {
    let t = ws_target("wss://relay.example:8443/relay").unwrap();
    assert!(t.tls);
    assert_eq!(t.host, "relay.example");
    assert_eq!(t.port, 8443);
    let u = ws_target("ws://[::1]:80/x").unwrap();
    assert!(!u.tls);
    assert_eq!(u.host, "[::1]");
    assert_eq!(ws_target("http://x:1").unwrap_err(), UrlError::NotWebSocket);
    assert_eq!(ws_target("ws://host/x").unwrap_err(), UrlError::MissingPort);
    assert_eq!(ws_target("ws://host:99999").unwrap_err(), UrlError::InvalidPort);
    assert_eq!(t.address, "relay.example:8443");
    assert_eq!(u.address, "[::1]:80");
}

#[test]
fn host_names_are_not_socket_addresses() {
    let named = ws_target("ws://localhost:80/x").unwrap();
    assert_eq!(named.address, "localhost:80");
    // "localhost:80" is not a socket address: the parser says no
    assert_eq!(accept_address(named, false).unwrap_err(), UrlError::InvalidAddress);
    let ip = ws_target("ws://127.0.0.1:0080/x").unwrap();
    assert_eq!(ip.address, "127.0.0.1:80");
    // "127.0.0.1:80" is one
    assert_eq!(accept_address(ip, true).unwrap().port, 80);
}

#[test]
fn outbound_targets_default_to_port_80() {
    assert_eq!(outbound_target("ws://r:81/p"), Some(("r".to_string(), 81)));
    assert_eq!(outbound_target("wss://r/p"), Some(("r".to_string(), 80)));
    assert_eq!(outbound_target("wss://r:bad"), Some(("r".to_string(), 80)));
    assert_eq!(outbound_target("https://r"), None);
}

#[test]
fn urls_are_built() {
    assert_eq!(desktop_ws_url("wss://r.example//", "d1"), "wss://r.example/relay/desktop/ws/d1");
    assert_eq!(local_http_url(8999, "/api/tabs"), "http://127.0.0.1:8999/api/tabs");
    assert_eq!(local_ws_url(80, "/ws"), "ws://127.0.0.1:80/ws");
}

#[test]
fn backoff_doubles_up_to_the_cap() {
    assert_eq!(next_backoff(1, 30), 2);
    assert_eq!(next_backoff(16, 30), 30);
    assert_eq!(next_backoff(30, 30), 30);
}

#[test]
fn version_file_lines() {
    let g = git_info_from(Some("\n  1.2.3  \n\nhttps://example/repo\n"), "0.0.0", "def");
    assert_eq!(g.version, "1.2.3");
    assert_eq!(g.repo_url, "https://example/repo");
    let h = git_info_from(Some("2.0\n"), "0.0.0", "def");
    assert_eq!(h.version, "2.0");
    assert_eq!(h.repo_url, "def");
    let n = git_info_from(None, "0.0.0", "def");
    assert_eq!(n.version, "0.0.0");
}

#[test]
fn tokens() {
    assert_eq!(new_token("  abc \n"), Some("abc".to_string()));
    assert_eq!(new_token("   "), None);
    assert!(token_configured("x"));
    assert!(!token_configured(""));
}

#[test]
fn page_token_from_code_or_token_link() {
    assert_eq!(page_token(Some(Some("tok".to_string())), Some("other"), "stored"), "tok");
    assert_eq!(page_token(Some(None), Some("stored"), "stored"), "");
    assert_eq!(page_token(None, Some("hunter%32"), "hunter2"), "hunter2");
    assert_eq!(page_token(None, Some("hunter2"), "hunter2"), "hunter2");
    assert_eq!(page_token(None, Some("wrong"), "hunter2"), "");
    assert_eq!(page_token(None, Some("%FF"), "hunter2"), "");
    assert_eq!(page_token(None, None, "hunter2"), "");
    // `?token=a%2520b` reaches the page as `a%20b` and is decoded once more
    assert_eq!(page_token(None, Some("a%20b"), "a b"), "a b");
    assert_eq!(page_token_from(None, Some(Some("a".to_string())), "a"), "a");
    assert_eq!(page_token_from(None, Some(None), "a"), "");
}

#[test]
fn auth_token_is_injected_before_head_end() {
    let html = "<html><head><title>t</title></head><body></body></html>";
    assert_eq!(
        inject_auth_token(html, "abc"),
        "<html><head><title>t</title><meta name=\"auth-token\" content=\"abc\">\n</head><body></body></html>"
    );
    assert_eq!(inject_auth_token("no head here", "abc"), "no head here");
    assert_eq!(
        inject_auth_token("</head></head>", ""),
        "<meta name=\"auth-token\" content=\"\">\n</head><meta name=\"auth-token\" content=\"\">\n</head>"
    );
}

#[test]
fn embedded_file_paths() {
    assert_eq!(StaticFiles::asset_path("index-abc.js"), "assets/index-abc.js");
    assert_eq!(StaticFiles::icon_path("icon-192.png"), "icons/icon-192.png");
}

#[test]
fn embedded_files_carry_their_content_type() {
    let a = StaticFiles::asset("index-abc.js");
    assert_eq!(a.lookup, "assets/index-abc.js");
    assert_eq!(a.content_type, "text/javascript");
    let i = StaticFiles::icon("icon-192.png");
    assert_eq!(i.lookup, "icons/icon-192.png");
    assert_eq!(i.content_type, "image/png");
    assert_eq!(StaticFiles::asset("blob.unknownext").content_type, "application/octet-stream");
}
