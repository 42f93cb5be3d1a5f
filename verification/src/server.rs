//! The desktop server's own rules: its command line, the addresses it
//! connects to for the relay, the reconnection back-off, its version
//! information and its access token.
use vstd::prelude::*;
use vstd::utf8::{decode_utf8, encode_utf8, valid_utf8};
use crate::text::{
    char_pos, chars_of, concat_chars, decimal, decimal_chars, lines, parse_u16, parse_unsigned,
    slice_chars, split_lines, starts_with, str_eq, string_of, strip_prefix, strip_prefix_chars, trim,
    trim_chars, trim_end_char, trim_end_chars, replace_all, replace_chars,
};
use crate::wire::opt_string_view;

verus! {

/// The desktop server's command line options.
#[derive(Clone, Debug)]
pub struct ServerArgs {
    pub port: u16,
    pub relay_url: Option<String>,
    pub relay_password: Option<String>,
    pub relay_desktop_id: Option<String>,
}

/// The mathematical content of the server's options.
pub struct ServerArgsView {
    pub port: u16,
    pub relay_url: Option<Seq<char>>,
    pub relay_password: Option<Seq<char>>,
    pub relay_desktop_id: Option<Seq<char>>,
}

impl View for ServerArgs {
    type V = ServerArgsView;

    open spec fn view(&self) -> ServerArgsView {
        ServerArgsView {
            port: self.port,
            relay_url: opt_string_view(self.relay_url),
            relay_password: opt_string_view(self.relay_password),
            relay_desktop_id: opt_string_view(self.relay_desktop_id),
        }
    }
}

/// The options with nothing given: port 8999, no relay.
pub open spec fn default_server_args() -> ServerArgsView {
    ServerArgsView { port: 8999, relay_url: None, relay_password: None, relay_desktop_id: None }
}

/// The argument at position `i`, if there is one.
pub open spec fn arg_at(args: Seq<Seq<char>>, i: int) -> Option<Seq<char>> {
    if 0 <= i < args.len() {
        Some(args[i])
    } else {
        None
    }
}

/// The server's options read from position `i` on, starting from `acc`;
/// `None` when a port number is not a valid `u16` (the server stops
/// there). `--port` and `-p` take the next argument as the port (and are
/// ignored at the end), `--port=N` gives it inline, `--relay-outbound`
/// takes a relay URL and a password, `--relay-desktop-id` an id; anything
/// else is ignored.
pub open spec fn server_args_from(args: Seq<Seq<char>>, i: int, acc: ServerArgsView) -> Option<
    ServerArgsView,
>
    decreases args.len() - i,
{
    if i < 0 || i >= args.len() {
        Some(acc)
    } else {
        let a = args[i];
        if (a == "--port"@ || a == "-p"@) && i + 1 < args.len() {
            match parse_unsigned(args[i + 1], 65535) {
                Some(p) => server_args_from(args, i + 2, ServerArgsView { port: p as u16, ..acc }),
                None => None,
            }
        } else if starts_with(a, "--port="@) {
            match parse_unsigned(a.skip(7), 65535) {
                Some(p) => server_args_from(args, i + 1, ServerArgsView { port: p as u16, ..acc }),
                None => None,
            }
        } else if a == "--relay-outbound"@ {
            server_args_from(
                args,
                if i + 3 <= args.len() {
                    i + 3
                } else {
                    args.len() as int
                },
                ServerArgsView {
                    relay_url: arg_at(args, i + 1),
                    relay_password: arg_at(args, i + 2),
                    ..acc
                },
            )
        } else if a == "--relay-desktop-id"@ {
            server_args_from(
                args,
                if i + 2 <= args.len() {
                    i + 2
                } else {
                    args.len() as int
                },
                ServerArgsView { relay_desktop_id: arg_at(args, i + 1), ..acc },
            )
        } else {
            server_args_from(args, i + 1, acc)
        }
    }
}

/// The argument at position `i`, if there is one.
fn arg_at_of(args: &Vec<String>, i: usize) -> (r: Option<String>)
    ensures
        opt_string_view(r) == arg_at(args@.map_values(|s: String| s@), i as int),
{
    if i < args.len() {
        Some(args[i].clone())
    } else {
        None
    }
}

/// Reads the server's command line (`raw[0]` being the program); `None`
/// when a port number is invalid.
fn try_parse_args(raw: &Vec<String>) -> (r: Option<ServerArgs>)
    ensures
        ({
            let av = raw@.map_values(|s: String| s@);
            match server_args_from(av, 1, default_server_args()) {
                Some(v) => r matches Some(a) && a@ == v,
                None => r is None,
            }
        }),
{
    let ghost av = raw@.map_values(|s: String| s@);
    let mut out = ServerArgs { port: 8999, relay_url: None, relay_password: None, relay_desktop_id: None };
    let n = raw.len();
    if n == 0 {
        return Some(out);
    }
    let mut i: usize = 1;
    while i < n
        invariant
            1 <= i <= n == raw@.len(),
            av == raw@.map_values(|s: String| s@),
            server_args_from(av, 1, default_server_args()) == server_args_from(av, i as int, out@),
        decreases n - i,
    {
        proof {
            reveal_strlit("--port");
            reveal_strlit("-p");
            reveal_strlit("--port=");
            reveal_strlit("--relay-outbound");
            reveal_strlit("--relay-desktop-id");
        }
        let a = raw[i].as_str();
        assert(av[i as int] == a@);
        let av_chars = chars_of(a);
        let is_port_flag = str_eq(a, "--port") || str_eq(a, "-p");
        if is_port_flag && i + 1 < n {
            let pv = chars_of(raw[i + 1].as_str());
            assert(av[i + 1] == pv@);
            match parse_u16(pv.as_slice()) {
                Some(p) => {
                    out.port = p;
                    i = i + 2;
                },
                None => {
                    return None;
                },
            }
        } else {
            let prefix = chars_of("--port=");
            match strip_prefix_chars(av_chars.as_slice(), prefix.as_slice()) {
                Some(rest) => {
                    assert(rest@ == a@.skip(7));
                    match parse_u16(rest.as_slice()) {
                        Some(p) => {
                            out.port = p;
                            i = i + 1;
                        },
                        None => {
                            return None;
                        },
                    }
                },
                None => {
                    assert(!starts_with(a@, "--port="@));
                    if str_eq(a, "--relay-outbound") {
                        out.relay_url = arg_at_of(raw, i + 1);
                        out.relay_password = if n - i >= 2 { arg_at_of(raw, i + 2) } else { None };
                        i = if n - i >= 3 { i + 3 } else { n };
                    } else if str_eq(a, "--relay-desktop-id") {
                        out.relay_desktop_id = arg_at_of(raw, i + 1);
                        i = if n - i >= 2 { i + 2 } else { n };
                    } else {
                        i = i + 1;
                    }
                },
            }
        }
    }
    Some(out)
}

/// Whether every port number on the command line is valid, so that
/// `parse_args` accepts it.
pub fn server_args_valid(raw: &Vec<String>) -> (r: bool)
    ensures
        r == server_args_from(raw@.map_values(|s: String| s@), 1, default_server_args()) is Some,
{
    try_parse_args(raw).is_some()
}

/// Reads the server's command line (`raw[0]` being the program).
pub fn parse_args(raw: &Vec<String>) -> (r: ServerArgs)
    requires
        server_args_from(raw@.map_values(|s: String| s@), 1, default_server_args()) is Some,
    ensures
        Some(r@) == server_args_from(raw@.map_values(|s: String| s@), 1, default_server_args()),
{
    match try_parse_args(raw) {
        Some(a) => a,
        None => ServerArgs { port: 8999, relay_url: None, relay_password: None, relay_desktop_id: None },
    }
}


/// `s` up to the first `c` (all of it when there is none): the first
/// piece of `str::split`.
pub open spec fn before_char(s: Seq<char>, c: char) -> Seq<char> {
    match char_pos(s, c) {
        Some(i) => s.take(i),
        None => s,
    }
}

/// `v` up to the first `c`.
fn before_char_of(v: &[char], c: char) -> (r: Vec<char>)
    ensures
        r@ == before_char(v@, c),
{
    match crate::text::find_char(v, c) {
        Some(i) => {
            let r = slice_chars(v, 0, i);
            assert(r@ =~= v@.take(i as int));
            r
        },
        None => {
            let r = slice_chars(v, 0, v.len());
            assert(r@ =~= v@);
            r
        },
    }
}

/// `s` without a `ws://` or `wss://` scheme.
pub open spec fn without_ws_scheme(s: Seq<char>) -> Seq<char> {
    match strip_prefix(s, "ws://"@) {
        Some(r) => r,
        None => match strip_prefix(s, "wss://"@) {
            Some(r) => r,
            None => s,
        },
    }
}

/// The `Host` header for a WebSocket URL: its `host:port`, after the
/// scheme and before the path.
pub fn extract_host(url: &str) -> (r: String)
    ensures
        r@ == before_char(without_ws_scheme(url@), '/'),
{
    let u = chars_of(url);
    let ws = chars_of("ws://");
    let wss = chars_of("wss://");
    let rest = match strip_prefix_chars(u.as_slice(), ws.as_slice()) {
        Some(r) => r,
        None => match strip_prefix_chars(u.as_slice(), wss.as_slice()) {
            Some(r) => r,
            None => u,
        },
    };
    string_of(before_char_of(rest.as_slice(), '/').as_slice())
}

/// `i` is the position of the last `c` in `s`.
pub open spec fn is_last_pos(s: Seq<char>, c: char, i: int) -> bool {
    &&& 0 <= i < s.len()
    &&& s[i] == c
    &&& forall|j: int| i < j < s.len() ==> s[j] != c
}

/// `s` split at its last `c` (`str::rsplit_once`).
pub open spec fn rsplit_once(s: Seq<char>, c: char) -> Option<(Seq<char>, Seq<char>)> {
    if exists|i: int| is_last_pos(s, c, i) {
        let i = choose|i: int| is_last_pos(s, c, i);
        Some((s.take(i), s.skip(i + 1)))
    } else {
        None
    }
}

/// `v` split at its last `c`.
fn rsplit_once_of(v: &[char], c: char) -> (r: Option<(Vec<char>, Vec<char>)>)
    ensures
        r is Some <==> rsplit_once(v@, c) is Some,
        r matches Some(p) ==> (p.0@, p.1@) == rsplit_once(v@, c)->0,
{
    let mut j: usize = v.len();
    while j > 0
        invariant
            j <= v@.len(),
            forall|k: int| j <= k < v@.len() ==> v@[k] != c,
        decreases j,
    {
        if v[j - 1] == c {
            let i = j - 1;
            proof {
                assert(is_last_pos(v@, c, i as int));
                let k = choose|k: int| is_last_pos(v@, c, k);
                if k < i {
                    assert(v@[i as int] != c);
                } else if k > i {
                    assert(v@[k] != c);
                }
            }
            let a = slice_chars(v, 0, i);
            let b = slice_chars(v, i + 1, v.len());
            assert(a@ =~= v@.take(i as int));
            assert(b@ =~= v@.skip(i + 1));
            return Some((a, b));
        }
        j = j - 1;
    }
    proof {
        if exists|i: int| is_last_pos(v@, c, i) {
            let k = choose|i: int| is_last_pos(v@, c, i);
            assert(v@[k] != c);
        }
    }
    None
}

/// Where the desktop connects for a WebSocket URL.
#[derive(Clone, Debug)]
pub struct WsTarget {
    /// `wss://`: the stream is wrapped in TLS.
    pub tls: bool,
    pub host: String,
    pub port: u16,
    /// `host:port`, which must parse as a socket address (an IPv4 address
    /// or a bracketed IPv6 address, and the port) before anything connects.
    pub address: String,
}

/// The text `host:port`.
fn address_text(host: &[char], port: u16) -> (r: String)
    ensures
        r@ == host_port_text(host@, port),
{
    let a = concat_chars(host, chars_of(":").as_slice());
    let b = concat_chars(a.as_slice(), decimal_chars(port as u64).as_slice());
    proof {
        reveal_strlit(":");
    }
    string_of(b.as_slice())
}

/// Why a WebSocket URL cannot be connected to.
#[derive(Clone, Copy, Debug, PartialEq, Eq, Structural)]
pub enum UrlError {
    /// The URL is neither `ws://` nor `wss://`.
    NotWebSocket,
    /// The `host:port` part has no `:`.
    MissingPort,
    /// The port is not a valid `u16`.
    InvalidPort,
    /// The host and port do not form a socket address: the host is not an
    /// IPv4 address or a bracketed IPv6 address.
    InvalidAddress,
}

/// The text of the socket address made of `host` and `port`, as the
/// connecting side parses it.
pub open spec fn host_port_text(host: Seq<char>, port: u16) -> Seq<char> {
    host + ":"@ + decimal(port as nat)
}

/// The parts of a WebSocket URL: the scheme (`wss://` first), the host
/// and port of the part before the path, split at its last `:`.
pub open spec fn ws_target_spec(url: Seq<char>) -> Result<(bool, Seq<char>, u16), UrlError> {
    let (tls, rest): (bool, Option<Seq<char>>) = match strip_prefix(url, "wss://"@) {
        Some(r) => (true, Some(r)),
        None => (false, strip_prefix(url, "ws://"@)),
    };
    match rest {
        None => Err(UrlError::NotWebSocket),
        Some(r) => match rsplit_once(before_char(r, '/'), ':') {
            None => Err(UrlError::MissingPort),
            Some((host, port)) => match parse_unsigned(port, 65535) {
                None => Err(UrlError::InvalidPort),
                Some(p) => Ok((tls, host, p as u16)),
            },
        },
    }
}

/// The parts of the WebSocket URL `url`; its address is yet to be accepted
/// by `accept_address`.
pub fn ws_target(url: &str) -> (r: Result<WsTarget, UrlError>)
    ensures
        match ws_target_spec(url@) {
            Ok((tls, host, port)) => r matches Ok(t) && t.tls == tls && t.host@ == host && t.port
                == port && t.address@ == host_port_text(host, port),
            Err(e) => r == Err::<WsTarget, UrlError>(e),
        },
{
    let u = chars_of(url);
    let wss = chars_of("wss://");
    let ws = chars_of("ws://");
    let (tls, rest) = match strip_prefix_chars(u.as_slice(), wss.as_slice()) {
        Some(r) => (true, Some(r)),
        None => (false, strip_prefix_chars(u.as_slice(), ws.as_slice())),
    };
    match rest {
        None => Err(UrlError::NotWebSocket),
        Some(r) => {
            let hp = before_char_of(r.as_slice(), '/');
            match rsplit_once_of(hp.as_slice(), ':') {
                None => Err(UrlError::MissingPort),
                Some((host, port)) => match parse_u16(port.as_slice()) {
                    None => Err(UrlError::InvalidPort),
                    Some(p) => {
                        let address = address_text(host.as_slice(), p);
                        Ok(WsTarget { tls, host: string_of(host.as_slice()), port: p, address })
                    },
                },
            }
        },
    }
}

/// What connecting to a WebSocket URL is given: its target when the URL
/// is well formed and its `host:port` parses as a socket address
/// (`address_parses`, the answer of `SocketAddr`'s parser to
/// `host_port_text(host, port)`), else why not.
pub open spec fn ws_connect_spec(url: Seq<char>, address_parses: bool) -> Result<
    (bool, Seq<char>, u16),
    UrlError,
> {
    match ws_target_spec(url) {
        Ok(t) => if address_parses {
            Ok(t)
        } else {
            Err(UrlError::InvalidAddress)
        },
        Err(e) => Err(e),
    }
}

/// The target a connection uses, once the socket-address parser has
/// answered for `target.address`: refused with `InvalidAddress` when it
/// is not a socket address, so that a host name such as `localhost` is
/// never connected to. The parser is `std::net::SocketAddr`'s, which this
/// library does not call: the caller parses and hands the answer over.
pub fn accept_address(target: WsTarget, address_parses: bool) -> (r: Result<WsTarget, UrlError>)
    ensures
        address_parses ==> r == Ok::<WsTarget, UrlError>(target),
        !address_parses ==> r == Err::<WsTarget, UrlError>(UrlError::InvalidAddress),
{
    if address_parses {
        Ok(target)
    } else {
        Err(UrlError::InvalidAddress)
    }
}

/// Connecting to `url` is refused exactly as `ws_connect_spec` says: the
/// URL's own errors first, then a `host:port` that is not a socket address.
pub proof fn law_ws_connect_needs_a_socket_address(url: Seq<char>, address_parses: bool)
    ensures
        ws_connect_spec(url, address_parses) is Ok ==> address_parses && ws_target_spec(url) is Ok,
        ws_target_spec(url) is Ok && !address_parses ==> ws_connect_spec(url, address_parses)
            == Err::<(bool, Seq<char>, u16), UrlError>(UrlError::InvalidAddress),
{
}

/// The host and port the relay client connects to for `url`: `ws://` or
/// `wss://` (both over plain TCP), the part before the path split at its
/// last `:`; port 80 when there is no `:` or the port is not valid. The
/// connecting side still parses `host:port` as a socket address and gives
/// up when it is none.
pub open spec fn outbound_target_spec(url: Seq<char>) -> Option<(Seq<char>, u16)> {
    let rest: Option<Seq<char>> = match strip_prefix(url, "wss://"@) {
        Some(r) => Some(r),
        None => strip_prefix(url, "ws://"@),
    };
    match rest {
        None => None,
        Some(r) => {
            let hp = before_char(r, '/');
            match rsplit_once(hp, ':') {
                None => Some((hp, 80)),
                Some((host, port)) => match parse_unsigned(port, 65535) {
                    Some(p) => Some((host, p as u16)),
                    None => Some((host, 80)),
                },
            }
        },
    }
}

/// The host and port the relay client connects to for `url`.
pub fn outbound_target(url: &str) -> (r: Option<(String, u16)>)
    ensures
        match outbound_target_spec(url@) {
            Some((host, port)) => r matches Some(t) && t.0@ == host && t.1 == port,
            None => r is None,
        },
{
    let u = chars_of(url);
    let wss = chars_of("wss://");
    let ws = chars_of("ws://");
    let rest = match strip_prefix_chars(u.as_slice(), wss.as_slice()) {
        Some(r) => Some(r),
        None => strip_prefix_chars(u.as_slice(), ws.as_slice()),
    };
    match rest {
        None => None,
        Some(r) => {
            let hp = before_char_of(r.as_slice(), '/');
            match rsplit_once_of(hp.as_slice(), ':') {
                None => Some((string_of(hp.as_slice()), 80)),
                Some((host, port)) => match parse_u16(port.as_slice()) {
                    Some(p) => Some((string_of(host.as_slice()), p)),
                    None => Some((string_of(host.as_slice()), 80)),
                },
            }
        },
    }
}

/// The URL of a desktop's tunnel on the relay: the relay URL without its
/// trailing slashes, then `/relay/desktop/ws/` and the desktop id.
pub fn desktop_ws_url(relay_url: &str, desktop_id: &str) -> (r: String)
    ensures
        r@ == trim_end_char(relay_url@, '/') + "/relay/desktop/ws/"@ + desktop_id@,
{
    let base = trim_end_chars(chars_of(relay_url).as_slice(), '/');
    let mid = chars_of("/relay/desktop/ws/");
    let a = concat_chars(base.as_slice(), mid.as_slice());
    let b = concat_chars(a.as_slice(), chars_of(desktop_id).as_slice());
    string_of(b.as_slice())
}

/// The URL of the local server for a proxied request path, on the
/// loopback address and the server's port.
pub fn local_http_url(port: u16, path: &str) -> (r: String)
    ensures
        r@ == "http://127.0.0.1:"@ + decimal(port as nat) + path@,
{
    let a = concat_chars(chars_of("http://127.0.0.1:").as_slice(), decimal_chars(port as u64).as_slice());
    let b = concat_chars(a.as_slice(), chars_of(path).as_slice());
    string_of(b.as_slice())
}

/// The URL of the local server for a bridged WebSocket path.
pub fn local_ws_url(port: u16, path: &str) -> (r: String)
    ensures
        r@ == "ws://127.0.0.1:"@ + decimal(port as nat) + path@,
{
    let a = concat_chars(chars_of("ws://127.0.0.1:").as_slice(), decimal_chars(port as u64).as_slice());
    let b = concat_chars(a.as_slice(), chars_of(path).as_slice());
    string_of(b.as_slice())
}

/// The wait before the next reconnection attempt, in seconds: twice the
/// last one, at most `max_secs`.
pub fn next_backoff(current_secs: u64, max_secs: u64) -> (r: u64)
    requires
        current_secs <= u64::MAX / 2,
    ensures
        r == (if current_secs * 2 < max_secs {
            current_secs * 2
        } else {
            max_secs as int
        }),
{
    let d = current_secs * 2;
    if d < max_secs {
        d
    } else {
        max_secs
    }
}

/// Starting from one second, the waits between reconnection attempts stay
/// between one second and the cap, and reach the cap.
pub proof fn law_backoff_is_bounded(current_secs: u64, max_secs: u64)
    requires
        1 <= current_secs <= max_secs <= u64::MAX / 2,
    ensures
        ({
            let next = if current_secs * 2 < max_secs {
                current_secs * 2
            } else {
                max_secs as int
            };
            &&& 1 <= next <= max_secs
            &&& next >= current_secs
            &&& (next == max_secs || next == 2 * current_secs)
        }),
{
}


/// The trimmed, non-blank lines among `ls`, in order.
pub open spec fn nonblank(ls: Seq<Seq<char>>) -> Seq<Seq<char>>
    decreases ls.len(),
{
    if ls.len() == 0 {
        Seq::empty()
    } else {
        let rest = nonblank(ls.drop_last());
        let t = trim(ls.last());
        if t.len() > 0 {
            rest.push(t)
        } else {
            rest
        }
    }
}

/// The version and repository the server reports about itself.
#[derive(Clone, Debug)]
pub struct GitInfo {
    pub version: String,
    pub repo_url: String,
}

/// The server's version information: the first non-blank line of the
/// `VERSION` file is the version and the second the repository URL; the
/// build's own values stand in for what the file (or a missing file)
/// lacks.
pub fn git_info_from(content: Option<&str>, default_version: &str, default_repo: &str) -> (r: GitInfo)
    ensures
        ({
            let ls = match content {
                Some(c) => nonblank(lines(c@)),
                None => Seq::<Seq<char>>::empty(),
            };
            &&& r.version@ == (if ls.len() > 0 {
                ls[0]
            } else {
                default_version@
            })
            &&& r.repo_url@ == (if ls.len() > 1 {
                ls[1]
            } else {
                default_repo@
            })
        }),
{
    let mut found: Vec<Vec<char>> = Vec::new();
    let ghost mut ls: Seq<Seq<char>> = Seq::empty();
    match content {
        Some(c) => {
            let cv = chars_of(c);
            let all = split_lines(cv.as_slice());
            let ghost lv = lines(cv@);
            let mut i: usize = 0;
            assert(lv.take(0) =~= Seq::<Seq<char>>::empty());
            while i < all.len()
                invariant
                    i <= all@.len() == lv.len(),
                    forall|j: int| 0 <= j < lv.len() ==> #[trigger] all@[j]@ == lv[j],
                    found@.len() == nonblank(lv.take(i as int)).len(),
                    forall|j: int| 0 <= j < found@.len() ==> #[trigger] found@[j]@ == nonblank(lv.take(i as int))[j],
                decreases all@.len() - i,
            {
                let t = trim_chars(all[i].as_slice());
                assert(lv.take(i + 1).drop_last() =~= lv.take(i as int));
                if t.len() > 0 {
                    found.push(t);
                }
                i = i + 1;
            }
            assert(lv.take(lv.len() as int) =~= lv);
            proof {
                ls = nonblank(lv);
            }
        },
        None => {},
    }
    let version = if found.len() > 0 {
        string_of(found[0].as_slice())
    } else {
        default_version.to_owned()
    };
    let repo_url = if found.len() > 1 {
        string_of(found[1].as_slice())
    } else {
        default_repo.to_owned()
    };
    GitInfo { version, repo_url }
}

/// A new access token from a request: the given text without surrounding
/// white space; `None` (refused with 400, "token cannot be empty") when
/// nothing is left.
pub fn new_token(requested: &str) -> (r: Option<String>)
    ensures
        trim(requested@).len() == 0 ==> r is None,
        trim(requested@).len() > 0 ==> (r matches Some(t) && t@ == trim(requested@)),
{
    let t = trim_chars(chars_of(requested).as_slice());
    if t.len() == 0 {
        None
    } else {
        Some(string_of(t.as_slice()))
    }
}

/// Whether an access token is set up (it is not empty); pairing codes are
/// handed out only then.
pub fn token_configured(token: &str) -> (r: bool)
    ensures
        r == (token@.len() > 0),
{
    !token.is_empty()
}

/// The value of a hexadecimal digit byte (either case).
pub open spec fn hex_value(b: u8) -> Option<int> {
    if 48 <= b <= 57 {
        Some(b - 48)
    } else if 65 <= b <= 70 {
        Some(b - 55)
    } else if 97 <= b <= 102 {
        Some(b - 87)
    } else {
        None
    }
}

/// Percent-decoding of bytes: each `%` followed by two hexadecimal digits
/// becomes the byte they name; any other `%`, and every other byte, stays
/// as it is (`+` included).
pub open spec fn percent_decoded(b: Seq<u8>) -> Seq<u8>
    decreases b.len(),
{
    if b.len() == 0 {
        Seq::empty()
    } else if b[0] != 37 {
        seq![b[0]] + percent_decoded(b.skip(1))
    } else if b.len() < 3 {
        b
    } else {
        match (hex_value(b[1]), hex_value(b[2])) {
            (Some(h), Some(l)) => seq![(h * 16 + l) as u8] + percent_decoded(b.skip(3)),
            (Some(_), None) => seq![37u8, b[1]] + percent_decoded(b.skip(2)),
            (None, _) => seq![37u8] + percent_decoded(b.skip(1)),
        }
    }
}

/// What `urlencoding::decode` gives for a text: the percent-decoding of its
/// UTF-8 bytes, when that is UTF-8 again.
pub open spec fn url_decoded(text: Seq<char>) -> Option<Seq<char>> {
    let b = percent_decoded(encode_utf8(text));
    if valid_utf8(b) {
        Some(decode_utf8(b))
    } else {
        None
    }
}

/// Percent-decodes `text` (`urlencoding::decode`, its error dropped): as
/// `url_decoded` says, which follows the crate's `decode_binary` and the
/// UTF-8 check after it.
#[verifier::external_body]
fn url_decode(text: &str) -> (r: Option<String>)
    ensures
        opt_string_view(r) == url_decoded(text@),
{
    urlencoding::decode(text).ok().map(std::borrow::Cow::into_owned)
}

/// An optional optional string, seen through its views.
pub open spec fn opt_opt_view(o: Option<Option<String>>) -> Option<Option<Seq<char>>> {
    match o {
        Some(x) => Some(opt_string_view(x)),
        None => None,
    }
}

/// The token a served page carries. With a one-time pairing code in the
/// link (`code`: what redeeming it gave), the token it was redeemed for,
/// or none when it was not valid. Otherwise, with a `token` in the link
/// (`decoded_token`: what percent-decoding it gave), the server's token
/// when the two agree; none in every other case.
pub open spec fn page_token_spec(
    code: Option<Option<Seq<char>>>,
    decoded_token: Option<Option<Seq<char>>>,
    stored: Seq<char>,
) -> Seq<char> {
    match code {
        Some(redeemed) => match redeemed {
            Some(t) => t,
            None => Seq::empty(),
        },
        None => match decoded_token {
            Some(Some(d)) => if d == stored {
                stored
            } else {
                Seq::empty()
            },
            _ => Seq::empty(),
        },
    }
}

/// A page served from a link without a pairing code carries the server's
/// token only when the link's `token` decodes to exactly that token, and
/// carries no token otherwise.
pub proof fn law_token_link_needs_the_token(decoded_token: Option<Option<Seq<char>>>, stored: Seq<char>)
    ensures
        page_token_spec(None, decoded_token, stored) == (if decoded_token == Some(Some(stored)) {
            stored
        } else {
            Seq::<char>::empty()
        }),
{
}

/// The token a served page carries, from what the link's code was
/// redeemed for and what its `token` decoded to.
pub fn page_token_from(
    code: Option<Option<String>>,
    decoded_token: Option<Option<String>>,
    stored: &str,
) -> (r: String)
    ensures
        r@ == page_token_spec(opt_opt_view(code), opt_opt_view(decoded_token), stored@),
{
    match code {
        Some(redeemed) => match redeemed {
            Some(t) => t,
            None => String::new(),
        },
        None => match decoded_token {
            Some(Some(d)) => if str_eq(d.as_str(), stored) {
                stored.to_string()
            } else {
                String::new()
            },
            _ => String::new(),
        },
    }
}

/// The token a served page carries, for a link with a redeemed pairing
/// code (`code`) or a `token` parameter. `token_param` is the parameter's
/// value as the query extractor hands it over, already percent-decoded
/// once; it is percent-decoded once more here, so `?token=a%2520b` compares
/// `a b` with the stored token.
pub fn page_token(code: Option<Option<String>>, token_param: Option<&str>, stored: &str) -> (r:
    String)
    ensures
        r@ == page_token_spec(
            opt_opt_view(code),
            match token_param {
                Some(t) => Some(url_decoded(t@)),
                None => None,
            },
            stored@,
        ),
{
    let decoded = match (&code, token_param) {
        (None, Some(t)) => Some(url_decode(t)),
        _ => None,
    };
    let ghost want: Option<Option<Seq<char>>> = match token_param {
        Some(t) => Some(url_decoded(t@)),
        None => None,
    };
    assert(code is None ==> opt_opt_view(decoded) == want);
    page_token_from(code, decoded, stored)
}

/// The tag that hands a page its token, placed before `</head>`.
pub open spec fn auth_tag(token: Seq<char>) -> Seq<char> {
    "<meta name=\"auth-token\" content=\""@ + token + "\">\n</head>"@
}

/// The index page with its token: every `</head>` of `html` is preceded
/// by a `meta` tag named `auth-token` whose content is `token`.
pub fn inject_auth_token(html: &str, token: &str) -> (r: String)
    ensures
        r@ == replace_all(html@, "</head>"@, auth_tag(token@)),
{
    let open = chars_of("<meta name=\"auth-token\" content=\"");
    let close = chars_of("\">\n</head>");
    let tag = concat_chars(concat_chars(open.as_slice(), chars_of(token).as_slice()).as_slice(), close.as_slice());
    let pat = chars_of("</head>");
    proof {
        reveal_strlit("</head>");
    }
    let out = replace_chars(chars_of(html).as_slice(), pat.as_slice(), tag.as_slice());
    string_of(out.as_slice())
}

/// The content type `mime_guess` gives a file path (from its extension,
/// `application/octet-stream` when it knows none).
pub uninterp spec fn guessed_mime(path: Seq<char>) -> Seq<char>;

/// The content type of `path`: `mime_guess::from_path(path)
/// .first_or_octet_stream()`. It is read from the crate's fixed table of
/// extensions, so it depends on the path alone; the contract names it and
/// claims nothing more.
#[verifier::external_body]
pub(crate) fn guess_mime(path: &str) -> (r: String)
    ensures
        r@ == guessed_mime(path@),
{
    mime_guess::from_path(path).first_or_octet_stream().as_ref().to_string()
}

/// An embedded file to serve: where it is found, and its content type.
#[derive(Clone, Debug)]
pub struct EmbeddedFile {
    pub lookup: String,
    pub content_type: String,
}

/// The frontend's files, embedded in the server: a page, its assets and
/// its icons, each found under its path in the frontend's build.
#[derive(Clone, Copy, Debug)]
pub struct StaticFiles;

impl StaticFiles {
    /// The embedded file an asset request for `path` reads.
    pub fn asset_path(path: &str) -> (r: String)
        ensures
            r@ == "assets/"@ + path@,
    {
        string_of(concat_chars(chars_of("assets/").as_slice(), chars_of(path).as_slice()).as_slice())
    }

    /// The embedded file an icon request for `path` reads.
    pub fn icon_path(path: &str) -> (r: String)
        ensures
            r@ == "icons/"@ + path@,
    {
        string_of(concat_chars(chars_of("icons/").as_slice(), chars_of(path).as_slice()).as_slice())
    }

    /// The asset a request for `path` serves, with the content type its
    /// file path gives.
    pub fn asset(path: &str) -> (r: EmbeddedFile)
        ensures
            r.lookup@ == "assets/"@ + path@,
            r.content_type@ == guessed_mime(r.lookup@),
    {
        let lookup = StaticFiles::asset_path(path);
        let content_type = guess_mime(lookup.as_str());
        EmbeddedFile { lookup, content_type }
    }

    /// The icon a request for `path` serves, with the content type its
    /// file path gives.
    pub fn icon(path: &str) -> (r: EmbeddedFile)
        ensures
            r.lookup@ == "icons/"@ + path@,
            r.content_type@ == guessed_mime(r.lookup@),
    {
        let lookup = StaticFiles::icon_path(path);
        let content_type = guess_mime(lookup.as_str());
        EmbeddedFile { lookup, content_type }
    }
}

} // verus!
