//! The framed tunnel protocol between the relay and the desktop: JSON
//! frames that carry proxied HTTP requests and responses and bridged
//! WebSocket streams, with their payloads in base64.
use vstd::prelude::*;
use base64::Engine;
use vstd::utf8::encode_utf8;
use crate::ids::new_uuid;
use crate::text::{ascii_lowercase, chars_of, concat_chars, str_eq, string_of, to_ascii_lowercase};

verus! {

/// An optional string, seen as an optional character sequence.
pub open spec fn opt_string_view(o: Option<String>) -> Option<Seq<char>> {
    match o {
        Some(s) => Some(s@),
        None => None,
    }
}

/// The string member `key` of the JSON object that `frame` holds, if the
/// frame is a JSON object with such a string member.
pub uninterp spec fn json_string_at(frame: Seq<u8>, key: Seq<char>) -> Option<Seq<char>>;

/// The boolean member `key` of the JSON object that `frame` holds, if any.
pub uninterp spec fn json_bool_at(frame: Seq<u8>, key: Seq<char>) -> Option<bool>;

/// The unsigned integer member `key` of the JSON object that `frame`
/// holds, if any.
pub uninterp spec fn json_u64_at(frame: Seq<u8>, key: Seq<char>) -> Option<u64>;

/// Parses `frame` as JSON (`serde_json::from_slice` into a `Value`) and
/// reads member `key` as a string (`Value::get`, `Value::as_str`). The
/// contract names the result `json_string_at(frame, key)`; what JSON text
/// gives which member is left to serde_json and not stated.
#[verifier::external_body]
pub(crate) fn json_string_field(frame: &[u8], key: &str) -> (r: Option<String>)
    ensures
        opt_string_view(r) == json_string_at(frame@, key@),
{
    let v: serde_json::Value = serde_json::from_slice(frame).ok()?;
    v.get(key)?.as_str().map(String::from)
}

/// Parses `frame` as JSON and reads member `key` as a boolean
/// (`Value::as_bool`); the result is named `json_bool_at(frame, key)`.
#[verifier::external_body]
pub(crate) fn json_bool_field(frame: &[u8], key: &str) -> (r: Option<bool>)
    ensures
        r == json_bool_at(frame@, key@),
{
    let v: serde_json::Value = serde_json::from_slice(frame).ok()?;
    v.get(key)?.as_bool()
}

/// Parses `frame` as JSON and reads member `key` as an unsigned integer
/// (`Value::as_u64`); the result is named `json_u64_at(frame, key)`.
#[verifier::external_body]
pub(crate) fn json_u64_field(frame: &[u8], key: &str) -> (r: Option<u64>)
    ensures
        r == json_u64_at(frame@, key@),
{
    let v: serde_json::Value = serde_json::from_slice(frame).ok()?;
    v.get(key)?.as_u64()
}

/// The members of the object member `key` of the JSON object that `frame`
/// holds, in the order serde_json's map keeps them, each with its text
/// when it is a string; none when there is no such object.
pub uninterp spec fn json_members_at(frame: Seq<u8>, key: Seq<char>) -> Seq<
    (Seq<char>, Option<Seq<char>>),
>;

/// Parses `frame` as JSON and lists the members of its object member `key`
/// (`Value::get`, the `Object` variant, each value's `Value::as_str`); the
/// result is named `json_members_at(frame, key)`.
#[verifier::external_body]
pub(crate) fn json_members(frame: &[u8], key: &str) -> (r: Vec<(String, Option<String>)>)
    ensures
        r@.map_values(|m: (String, Option<String>)| header_view(m)) == json_members_at(frame@, key@),
{
    let mut out = Vec::new();
    let v: serde_json::Value = match serde_json::from_slice(frame) {
        Ok(v) => v,
        Err(_) => return out,
    };
    if let Some(serde_json::Value::Object(members)) = v.get(key) {
        for (name, value) in members {
            out.push((name.clone(), value.as_str().map(String::from)));
        }
    }
    out
}

/// The bytes that standard, padded base64 text decodes to, if it is valid.
pub uninterp spec fn base64_decoded(text: Seq<char>) -> Option<Seq<u8>>;

/// The standard, padded base64 encoding of some bytes.
pub uninterp spec fn base64_encoded(bytes: Seq<u8>) -> Seq<char>;

/// Decodes standard base64 (`base64::engine::general_purpose::STANDARD`,
/// `Engine::decode`); `None` when the text is not valid. The result is
/// named `base64_decoded(text)`.
#[verifier::external_body]
pub(crate) fn base64_decode(text: &str) -> (r: Option<Vec<u8>>)
    ensures
        r is Some <==> base64_decoded(text@) is Some,
        r matches Some(b) ==> b@ == base64_decoded(text@)->0,
{
    base64::engine::general_purpose::STANDARD.decode(text).ok()
}

/// Encodes bytes as standard, padded base64 (`Engine::encode` of
/// `STANDARD`). The result is named `base64_encoded(bytes)`, and decoding
/// it gives the bytes back, as the crate's documentation shows.
#[verifier::external_body]
pub(crate) fn base64_encode(bytes: &[u8]) -> (r: String)
    ensures
        r@ == base64_encoded(bytes@),
        base64_decoded(r@) == Some(bytes@),
{
    base64::engine::general_purpose::STANDARD.encode(bytes)
}

/// Decoded base64, or no bytes when the text is not valid base64.
pub open spec fn decoded_or_empty(text: Seq<char>) -> Seq<u8> {
    match base64_decoded(text) {
        Some(b) => b,
        None => Seq::empty(),
    }
}

/// An optional string member, or the empty text.
pub open spec fn text_or_empty(o: Option<Seq<char>>) -> Seq<char> {
    match o {
        Some(s) => s,
        None => Seq::empty(),
    }
}

/// Decodes base64 text, giving no bytes when it is not valid.
pub fn decode_or_empty(text: &str) -> (r: Vec<u8>)
    ensures
        r@ == decoded_or_empty(text@),
{
    match base64_decode(text) {
        Some(b) => b,
        None => Vec::new(),
    }
}

/// A string member of a frame, or `default` when it has none.
fn string_field_or(frame: &[u8], key: &str, default: &str) -> (r: String)
    ensures
        r@ == (match json_string_at(frame@, key@) {
            Some(s) => s,
            None => default@,
        }),
{
    match json_string_field(frame, key) {
        Some(s) => s,
        None => default.to_owned(),
    }
}

/// Some byte of `frame` is not ASCII, so the frame travels as a binary
/// WebSocket message; an all-ASCII frame is always valid text and
/// travels as a text message.
pub open spec fn is_binary_frame(frame: Seq<u8>) -> bool {
    exists|i: int| 0 <= i < frame.len() && frame[i] >= 0x80
}

/// Whether `frame` must travel as a binary WebSocket message.
pub fn frame_is_binary(frame: &[u8]) -> (r: bool)
    ensures
        r == is_binary_frame(frame@),
{
    let mut i: usize = 0;
    while i < frame.len()
        invariant
            i <= frame@.len(),
            forall|j: int| 0 <= j < i ==> frame@[j] < 0x80,
        decreases frame@.len() - i,
    {
        if frame[i] >= 0x80 {
            return true;
        }
        i = i + 1;
    }
    false
}

/// The frame types of the proxy protocol itself, which a phone attached
/// to the raw terminal stream must not see.
pub open spec fn is_control_type(t: Seq<char>) -> bool {
    ||| t == "ws_data"@
    ||| t == "ws_close"@
    ||| t == "ws_open"@
    ||| t == "http_req"@
    ||| t == "http_resp"@
}

/// Whether `t` names a frame type of the proxy protocol.
pub fn is_control_frame_type(t: &str) -> (r: bool)
    ensures
        r == is_control_type(t@),
{
    str_eq(t, "ws_data") || str_eq(t, "ws_close") || str_eq(t, "ws_open") || str_eq(t, "http_req")
        || str_eq(t, "http_resp")
}

/// A frame from the desktop reaches a phone unless it is a JSON object
/// whose `type` is one of the proxy protocol's.
pub open spec fn reaches_mobile(frame: Seq<u8>) -> bool {
    !(json_string_at(frame, "type"@) matches Some(t) && is_control_type(t))
}

/// Whether a frame from the desktop is forwarded to the phones.
pub fn forward_to_mobile(frame: &[u8]) -> (r: bool)
    ensures
        r == reaches_mobile(frame@),
{
    match json_string_field(frame, "type") {
        Some(t) => !is_control_frame_type(t.as_str()),
        None => true,
    }
}

/// What a bridged WebSocket does with a frame from the desktop.
#[derive(Clone, Debug)]
pub enum StreamAction {
    /// The frame is for another stream, or of no interest.
    Ignore,
    /// Data for this stream: send it to the client.
    Deliver { data: Vec<u8>, binary: bool },
    /// The desktop closed this stream.
    Close,
}

/// The action for a desktop frame on the bridged stream `stream_id`:
/// frames of other streams are ignored; `ws_data` delivers the decoded
/// `data` member (no bytes when absent or not base64) as binary or text
/// after the `binary` member (text when absent); `ws_close` closes.
pub open spec fn stream_action_spec(frame: Seq<u8>, stream_id: Seq<char>) -> StreamActionView {
    if json_string_at(frame, "stream_id"@) != Some(stream_id) {
        StreamActionView::Ignore
    } else if json_string_at(frame, "type"@) == Some("ws_data"@) {
        StreamActionView::Deliver {
            data: decoded_or_empty(text_or_empty(json_string_at(frame, "data"@))),
            binary: match json_bool_at(frame, "binary"@) {
                Some(b) => b,
                None => false,
            },
        }
    } else if json_string_at(frame, "type"@) == Some("ws_close"@) {
        StreamActionView::Close
    } else {
        StreamActionView::Ignore
    }
}

/// The mathematical content of a stream action.
pub enum StreamActionView {
    Ignore,
    Deliver { data: Seq<u8>, binary: bool },
    Close,
}

impl View for StreamAction {
    type V = StreamActionView;

    open spec fn view(&self) -> StreamActionView {
        match self {
            StreamAction::Ignore => StreamActionView::Ignore,
            StreamAction::Deliver { data, binary } => StreamActionView::Deliver {
                data: data@,
                binary: *binary,
            },
            StreamAction::Close => StreamActionView::Close,
        }
    }
}

/// What the bridged stream `stream_id` does with a frame from the desktop.
pub fn route_stream_frame(frame: &[u8], stream_id: &str) -> (r: StreamAction)
    ensures
        r@ == stream_action_spec(frame@, stream_id@),
{
    proof {
        reveal_strlit("");
        reveal_strlit("ws_data");
        reveal_strlit("ws_close");
        assert("ws_data"@.len() != "ws_close"@.len());
    }
    let sid = json_string_field(frame, "stream_id");
    let same = match &sid {
        Some(s) => str_eq(s.as_str(), stream_id),
        None => false,
    };
    if !same {
        return StreamAction::Ignore;
    }
    let ty = json_string_field(frame, "type");
    let (is_data, is_close) = match &ty {
        Some(t) => (str_eq(t.as_str(), "ws_data"), str_eq(t.as_str(), "ws_close")),
        None => (false, false),
    };
    if is_data {
        let text = string_field_or(frame, "data", "");
        let data = decode_or_empty(text.as_str());
        let binary = match json_bool_field(frame, "binary") {
            Some(b) => b,
            None => false,
        };
        let r = StreamAction::Deliver { data, binary };
        assert(json_string_at(frame@, "stream_id"@) == Some(stream_id@));
        assert(json_string_at(frame@, "type"@) == Some("ws_data"@));
        assert(text@ == text_or_empty(json_string_at(frame@, "data"@)));
        assert(r@ == stream_action_spec(frame@, stream_id@));
        r
    } else if is_close {
        StreamAction::Close
    } else {
        StreamAction::Ignore
    }
}


/// The status code a proxied response carries: the `status` member (500
/// when absent or not an unsigned integer), cut to 16 bits, and 500 again
/// when that is not a valid HTTP status (100 to 999).
pub open spec fn response_status(frame: Seq<u8>) -> u16 {
    let raw: nat = match json_u64_at(frame, "status"@) {
        Some(s) => s as nat,
        None => 500,
    };
    let cut = raw % 65536;
    if 100 <= cut && cut <= 999 {
        cut as u16
    } else {
        500
    }
}

/// The status and body of a proxied HTTP response.
#[derive(Clone, Debug)]
pub struct HttpResponseParts {
    pub status: u16,
    pub headers: Vec<(String, String)>,
    pub body: Vec<u8>,
}

/// The frame answers the request `req_id`: it is an `http_resp` frame
/// with that request id.
pub open spec fn answers_request(frame: Seq<u8>, req_id: Seq<char>) -> bool {
    &&& json_string_at(frame, "type"@) == Some("http_resp"@)
    &&& json_string_at(frame, "req_id"@) == Some(req_id)
}

/// The status, headers and body of `frame` when it answers the request
/// `req_id` (the headers being the string members of its `headers` object whose
/// name and value HTTP accepts,
/// the body its decoded `body` member, empty when absent or not base64);
/// `None` for any other frame, which the waiting request skips.
pub fn match_http_response(frame: &[u8], req_id: &str) -> (r: Option<HttpResponseParts>)
    ensures
        r is Some <==> answers_request(frame@, req_id@),
        r matches Some(p) ==> p.status == response_status(frame@) && p.body@ == decoded_or_empty(
            text_or_empty(json_string_at(frame@, "body"@)),
        ) && p.headers@.map_values(|h: (String, String)| (h.0@, h.1@)) == valid_headers(
            text_headers(json_members_at(frame@, "headers"@)),
        ),
{
    proof {
        reveal_strlit("");
    }
    let ty = json_string_field(frame, "type");
    let is_resp = match &ty {
        Some(t) => str_eq(t.as_str(), "http_resp"),
        None => false,
    };
    if !is_resp {
        return None;
    }
    let rid = json_string_field(frame, "req_id");
    let same = match &rid {
        Some(x) => str_eq(x.as_str(), req_id),
        None => false,
    };
    if !same {
        return None;
    }
    let raw: u64 = match json_u64_field(frame, "status") {
        Some(x) => x,
        None => 500,
    };
    let cut = raw % 65536;
    let status: u16 = if 100 <= cut && cut <= 999 {
        cut as u16
    } else {
        500
    };
    let text = string_field_or(frame, "body", "");
    let body = decode_or_empty(text.as_str());
    assert(text@ == text_or_empty(json_string_at(frame@, "body"@)));
    let headers = keep_valid_headers(&keep_text(&json_members(frame, "headers")));
    Some(HttpResponseParts { status, headers, body })
}

/// A proxied HTTP request, as the desktop reads it from an `http_req`
/// frame.
#[derive(Clone, Debug)]
pub struct HttpRequestParts {
    pub req_id: String,
    pub method: String,
    pub path: String,
    pub headers: Vec<(String, String)>,
    pub body: Vec<u8>,
}

/// A string member of a frame, or a default.
pub open spec fn string_member_or(frame: Seq<u8>, key: Seq<char>, default: Seq<char>) -> Seq<char> {
    match json_string_at(frame, key) {
        Some(s) => s,
        None => default,
    }
}

/// The parts of an `http_req` frame: its request id (empty when absent),
/// method (`GET` when absent), path (`/` when absent), the string members
/// of its `headers` object whose name and value HTTP accepts, and decoded
/// body (empty when absent or not
/// base64).
pub fn parse_http_request(frame: &[u8]) -> (r: HttpRequestParts)
    ensures
        r.req_id@ == string_member_or(frame@, "req_id"@, ""@),
        r.method@ == string_member_or(frame@, "method"@, "GET"@),
        r.path@ == string_member_or(frame@, "path"@, "/"@),
        r.body@ == decoded_or_empty(string_member_or(frame@, "body"@, ""@)),
        r.headers@.map_values(|h: (String, String)| (h.0@, h.1@)) == valid_headers(
            text_headers(json_members_at(frame@, "headers"@)),
        ),
{
    proof {
        reveal_strlit("");
    }
    let req_id = string_field_or(frame, "req_id", "");
    let method = string_field_or(frame, "method", "GET");
    let path = string_field_or(frame, "path", "/");
    let text = string_field_or(frame, "body", "");
    let body = decode_or_empty(text.as_str());
    let headers = keep_valid_headers(&keep_text(&json_members(frame, "headers")));
    HttpRequestParts { req_id, method, path, headers, body }
}

/// The HTTP methods the desktop replays a proxied request with.
#[derive(Clone, Copy, Debug, PartialEq, Eq, Structural)]
pub enum HttpMethod {
    Get,
    Post,
    Put,
    Delete,
    Patch,
    Head,
}

/// The method a proxied request is replayed with: the named one for
/// `POST`, `PUT`, `DELETE`, `PATCH` and `HEAD` (exactly so spelled), `GET`
/// for anything else.
pub open spec fn method_for(method: Seq<char>) -> HttpMethod {
    if method == "POST"@ {
        HttpMethod::Post
    } else if method == "PUT"@ {
        HttpMethod::Put
    } else if method == "DELETE"@ {
        HttpMethod::Delete
    } else if method == "PATCH"@ {
        HttpMethod::Patch
    } else if method == "HEAD"@ {
        HttpMethod::Head
    } else {
        HttpMethod::Get
    }
}

/// The method a proxied request is replayed with.
pub fn request_method(method: &str) -> (r: HttpMethod)
    ensures
        r == method_for(method@),
{
    if str_eq(method, "POST") {
        HttpMethod::Post
    } else if str_eq(method, "PUT") {
        HttpMethod::Put
    } else if str_eq(method, "DELETE") {
        HttpMethod::Delete
    } else if str_eq(method, "PATCH") {
        HttpMethod::Patch
    } else if str_eq(method, "HEAD") {
        HttpMethod::Head
    } else {
        HttpMethod::Get
    }
}

/// A replayed request carries its body when the body is not empty and the
/// method text is neither `GET` nor `HEAD`.
pub fn sends_body(method: &str, body: &Vec<u8>) -> (r: bool)
    ensures
        r == (body@.len() > 0 && method@ != "GET"@ && method@ != "HEAD"@),
{
    body.len() > 0 && !str_eq(method, "GET") && !str_eq(method, "HEAD")
}

/// Request headers that the relay does not pass on through the tunnel:
/// the connection-level ones.
pub open spec fn is_hop_by_hop(name: Seq<char>) -> bool {
    ||| name == "host"@
    ||| name == "connection"@
    ||| name == "upgrade"@
    ||| name == "sec-websocket-key"@
    ||| name == "sec-websocket-version"@
    ||| name == "sec-websocket-extensions"@
    ||| name == "transfer-encoding"@
}

/// Whether a request header (named in lower case) is passed on.
pub fn forwards_header(name: &str) -> (r: bool)
    ensures
        r == !is_hop_by_hop(name@),
{
    !(str_eq(name, "host") || str_eq(name, "connection") || str_eq(name, "upgrade") || str_eq(
        name,
        "sec-websocket-key",
    ) || str_eq(name, "sec-websocket-version") || str_eq(name, "sec-websocket-extensions")
        || str_eq(name, "transfer-encoding"))
}

/// A message of a bridged WebSocket.
#[derive(Clone, Debug)]
pub enum WsMessage {
    Text(String),
    Binary(Vec<u8>),
    Close,
    Ping,
    Pong,
}

/// A frame of a bridged stream, sent through the tunnel: data (base64,
/// with whether it was binary) or the stream's close.
#[derive(Clone, Debug)]
pub enum TunnelFrame {
    Data { stream_id: String, data: String, binary: bool },
    Close { stream_id: String },
}

/// The tunnel frame a message of the bridged stream `stream_id` becomes:
/// text and binary messages become `ws_data` with their bytes in base64,
/// a close becomes `ws_close`, pings and pongs are not sent.
pub open spec fn tunnel_frame_spec(msg: WsMessage, stream_id: Seq<char>) -> Option<TunnelFrameView> {
    match msg {
        WsMessage::Text(t) => Some(
            TunnelFrameView::Data {
                stream_id,
                data: base64_encoded(encode_utf8(t@)),
                binary: false,
            },
        ),
        WsMessage::Binary(b) => Some(
            TunnelFrameView::Data { stream_id, data: base64_encoded(b@), binary: true },
        ),
        WsMessage::Close => Some(TunnelFrameView::Close { stream_id }),
        _ => None,
    }
}

/// The mathematical content of a tunnel frame.
pub enum TunnelFrameView {
    Data { stream_id: Seq<char>, data: Seq<char>, binary: bool },
    Close { stream_id: Seq<char> },
}

impl View for TunnelFrame {
    type V = TunnelFrameView;

    open spec fn view(&self) -> TunnelFrameView {
        match self {
            TunnelFrame::Data { stream_id, data, binary } => TunnelFrameView::Data {
                stream_id: stream_id@,
                data: data@,
                binary: *binary,
            },
            TunnelFrame::Close { stream_id } => TunnelFrameView::Close { stream_id: stream_id@ },
        }
    }
}

/// An optional tunnel frame, seen through its view.
pub open spec fn opt_frame_view(o: Option<TunnelFrame>) -> Option<TunnelFrameView> {
    match o {
        Some(f) => Some(f@),
        None => None,
    }
}

/// The tunnel frame for a message of the bridged stream `stream_id`.
pub fn tunnel_frame_for(msg: &WsMessage, stream_id: &str) -> (r: Option<TunnelFrame>)
    ensures
        opt_frame_view(r) == tunnel_frame_spec(*msg, stream_id@),
        r matches Some(TunnelFrame::Data { data, .. }) ==> base64_decoded(data@) == Some(
            match *msg {
                WsMessage::Binary(b) => b@,
                WsMessage::Text(t) => encode_utf8(t@),
                _ => Seq::empty(),
            },
        ),
{
    match msg {
        WsMessage::Text(t) => Some(
            TunnelFrame::Data {
                stream_id: stream_id.to_owned(),
                data: base64_encode(t.as_str().as_bytes()),
                binary: false,
            },
        ),
        WsMessage::Binary(b) => Some(
            TunnelFrame::Data {
                stream_id: stream_id.to_owned(),
                data: base64_encode(b.as_slice()),
                binary: true,
            },
        ),
        WsMessage::Close => Some(TunnelFrame::Close { stream_id: stream_id.to_owned() }),
        _ => None,
    }
}


/// What the desktop does with a frame from the relay.
#[derive(Clone, Debug)]
pub enum RelayCommand {
    /// Keystrokes for a pane (the active one when no pane is named).
    Input { data: String, pane_id: Option<String> },
    /// A proxied HTTP request to replay against the local server.
    HttpRequest(HttpRequestParts),
    /// Open a local WebSocket for a new bridged stream.
    WsOpen { stream_id: String, path: String },
    /// Data for a bridged stream.
    WsData { stream_id: String, data: Vec<u8>, binary: bool },
    /// Close a bridged stream.
    WsClose { stream_id: String },
    /// Anything else.
    Ignore,
}

/// The mathematical content of a relay command.
pub enum RelayCommandView {
    Input { data: Seq<char>, pane_id: Option<Seq<char>> },
    HttpRequest {
        req_id: Seq<char>,
        method: Seq<char>,
        path: Seq<char>,
        headers: Seq<(Seq<char>, Seq<char>)>,
        body: Seq<u8>,
    },
    WsOpen { stream_id: Seq<char>, path: Seq<char> },
    WsData { stream_id: Seq<char>, data: Seq<u8>, binary: bool },
    WsClose { stream_id: Seq<char> },
    Ignore,
}

impl View for RelayCommand {
    type V = RelayCommandView;

    open spec fn view(&self) -> RelayCommandView {
        match self {
            RelayCommand::Input { data, pane_id } => RelayCommandView::Input {
                data: data@,
                pane_id: opt_string_view(*pane_id),
            },
            RelayCommand::HttpRequest(p) => RelayCommandView::HttpRequest {
                req_id: p.req_id@,
                method: p.method@,
                path: p.path@,
                headers: p.headers@.map_values(|h: (String, String)| (h.0@, h.1@)),
                body: p.body@,
            },
            RelayCommand::WsOpen { stream_id, path } => RelayCommandView::WsOpen {
                stream_id: stream_id@,
                path: path@,
            },
            RelayCommand::WsData { stream_id, data, binary } => RelayCommandView::WsData {
                stream_id: stream_id@,
                data: data@,
                binary: *binary,
            },
            RelayCommand::WsClose { stream_id } => RelayCommandView::WsClose {
                stream_id: stream_id@,
            },
            RelayCommand::Ignore => RelayCommandView::Ignore,
        }
    }
}

/// The command a frame from the relay carries, after its `type` member:
/// `input` with a string `data` member (and an optional `pane_id`),
/// `http_req`, `ws_open` (path `/ws` when absent), `ws_data` (decoded
/// data, text unless `binary` is true), `ws_close`; a missing stream id
/// reads as empty. Any other frame is ignored.
pub open spec fn relay_command_spec(frame: Seq<u8>) -> RelayCommandView {
    let ty = json_string_at(frame, "type"@);
    if ty == Some("input"@) {
        match json_string_at(frame, "data"@) {
            Some(d) => RelayCommandView::Input {
                data: d,
                pane_id: json_string_at(frame, "pane_id"@),
            },
            None => RelayCommandView::Ignore,
        }
    } else if ty == Some("http_req"@) {
        RelayCommandView::HttpRequest {
            req_id: string_member_or(frame, "req_id"@, ""@),
            method: string_member_or(frame, "method"@, "GET"@),
            path: string_member_or(frame, "path"@, "/"@),
            headers: valid_headers(text_headers(json_members_at(frame, "headers"@))),
            body: decoded_or_empty(string_member_or(frame, "body"@, ""@)),
        }
    } else if ty == Some("ws_open"@) {
        RelayCommandView::WsOpen {
            stream_id: string_member_or(frame, "stream_id"@, ""@),
            path: string_member_or(frame, "path"@, "/ws"@),
        }
    } else if ty == Some("ws_data"@) {
        RelayCommandView::WsData {
            stream_id: string_member_or(frame, "stream_id"@, ""@),
            data: decoded_or_empty(string_member_or(frame, "data"@, ""@)),
            binary: match json_bool_at(frame, "binary"@) {
                Some(b) => b,
                None => false,
            },
        }
    } else if ty == Some("ws_close"@) {
        RelayCommandView::WsClose { stream_id: string_member_or(frame, "stream_id"@, ""@) }
    } else {
        RelayCommandView::Ignore
    }
}

/// Whether an optional string holds exactly `lit`.
fn opt_is(o: &Option<String>, lit: &str) -> (r: bool)
    ensures
        r == (opt_string_view(*o) == Some(lit@)),
{
    match o {
        Some(s) => str_eq(s.as_str(), lit),
        None => false,
    }
}

/// The command a frame from the relay carries.
pub fn classify_relay_frame(frame: &[u8]) -> (r: RelayCommand)
    ensures
        r@ == relay_command_spec(frame@),
{
    proof {
        reveal_strlit("");
        reveal_strlit("input");
        reveal_strlit("http_req");
        reveal_strlit("ws_open");
        reveal_strlit("ws_data");
        reveal_strlit("ws_close");
    }
    let ty = json_string_field(frame, "type");
    if opt_is(&ty, "input") {
        match json_string_field(frame, "data") {
            Some(data) => RelayCommand::Input { data, pane_id: json_string_field(frame, "pane_id") },
            None => RelayCommand::Ignore,
        }
    } else if opt_is(&ty, "http_req") {
        let p = parse_http_request(frame);
        RelayCommand::HttpRequest(p)
    } else if opt_is(&ty, "ws_open") {
        RelayCommand::WsOpen {
            stream_id: string_field_or(frame, "stream_id", ""),
            path: string_field_or(frame, "path", "/ws"),
        }
    } else if opt_is(&ty, "ws_data") {
        let stream_id = string_field_or(frame, "stream_id", "");
        let text = string_field_or(frame, "data", "");
        let data = decode_or_empty(text.as_str());
        let binary = match json_bool_field(frame, "binary") {
            Some(b) => b,
            None => false,
        };
        RelayCommand::WsData { stream_id, data, binary }
    } else if opt_is(&ty, "ws_close") {
        RelayCommand::WsClose { stream_id: string_field_or(frame, "stream_id", "") }
    } else {
        RelayCommand::Ignore
    }
}

/// A proxied request as the relay sends it through the tunnel: a fresh
/// request id, the method, the path with its query, the headers it passes
/// on, and the body in base64.
#[derive(Clone, Debug)]
pub struct HttpRequestFrame {
    pub req_id: String,
    pub method: String,
    pub path: String,
    pub headers: Vec<(String, String)>,
    pub body: String,
}

/// A request header as the relay reads it: its name, and its value when
/// that is visible ASCII text.
pub open spec fn header_view(h: (String, Option<String>)) -> (Seq<char>, Option<Seq<char>>) {
    (h.0@, opt_string_view(h.1))
}

/// The headers a proxied request passes on, in order: each with a text
/// value whose name, in lower case, is not a connection-level one; names
/// in lower case.
pub open spec fn passed_headers(hs: Seq<(Seq<char>, Option<Seq<char>>)>) -> Seq<(Seq<char>, Seq<char>)>
    decreases hs.len(),
{
    if hs.len() == 0 {
        Seq::empty()
    } else {
        let rest = passed_headers(hs.drop_last());
        let name = ascii_lowercase(hs.last().0);
        match hs.last().1 {
            Some(v) => if is_hop_by_hop(name) {
                rest
            } else {
                rest.push((name, v))
            },
            None => rest,
        }
    }
}

/// The frame that sends a request with `method`, `path`, `headers` and
/// `body` through the tunnel, under a fresh request id.
pub fn http_request_frame(
    method: &str,
    path: &str,
    headers: &Vec<(String, Option<String>)>,
    body: &[u8],
) -> (r: HttpRequestFrame)
    ensures
        r.req_id@.len() == 36,
        r.method@ == method@,
        r.path@ == path@,
        r.headers@.map_values(|h: (String, String)| (h.0@, h.1@)) == passed_headers(
            headers@.map_values(|h: (String, Option<String>)| header_view(h)),
        ),
        r.body@ == base64_encoded(body@),
        base64_decoded(r.body@) == Some(body@),
{
    let ghost hv = headers@.map_values(|h: (String, Option<String>)| header_view(h));
    let mut kept: Vec<(String, String)> = Vec::new();
    let mut i: usize = 0;
    while i < headers.len()
        invariant
            i <= headers@.len() == hv.len(),
            hv == headers@.map_values(|h: (String, Option<String>)| header_view(h)),
            kept@.map_values(|h: (String, String)| (h.0@, h.1@)) == passed_headers(
                hv.take(i as int),
            ),
        decreases headers@.len() - i,
    {
        let ghost before = kept@.map_values(|h: (String, String)| (h.0@, h.1@));
        assert(hv.take(i + 1).drop_last() =~= hv.take(i as int));
        let name = to_ascii_lowercase(headers[i].0.as_str());
        match &headers[i].1 {
            Some(v) => if forwards_header(name.as_str()) {
                kept.push((name, v.clone()));
                assert(kept@.map_values(|h: (String, String)| (h.0@, h.1@)) =~= before.push(
                    (ascii_lowercase(hv[i as int].0), v@),
                ));
            },
            None => {},
        }
        i = i + 1;
    }
    assert(hv.take(headers@.len() as int) =~= hv);
    HttpRequestFrame {
        req_id: new_uuid(),
        method: method.to_string(),
        path: path.to_string(),
        headers: kept,
        body: base64_encode(body),
    }
}

/// A response the desktop sends back through the tunnel for a proxied
/// request: the request's id, the status, the headers with text values,
/// and the body in base64.
#[derive(Clone, Debug)]
pub struct HttpResponseFrame {
    pub req_id: String,
    pub status: u16,
    pub headers: Vec<(String, String)>,
    pub body: String,
}

/// The headers with a text value, in order.
pub open spec fn text_headers(hs: Seq<(Seq<char>, Option<Seq<char>>)>) -> Seq<(Seq<char>, Seq<char>)>
    decreases hs.len(),
{
    if hs.len() == 0 {
        Seq::empty()
    } else {
        let rest = text_headers(hs.drop_last());
        match hs.last().1 {
            Some(v) => rest.push((hs.last().0, v)),
            None => rest,
        }
    }
}

/// The frame that answers request `req_id` with the local server's
/// response: its status, its headers that have text values, and its body.
pub fn http_response_frame(
    req_id: &str,
    status: u16,
    headers: &Vec<(String, Option<String>)>,
    body: &[u8],
) -> (r: HttpResponseFrame)
    ensures
        r.req_id@ == req_id@,
        r.status == status,
        r.headers@.map_values(|h: (String, String)| (h.0@, h.1@)) == text_headers(
            headers@.map_values(|h: (String, Option<String>)| header_view(h)),
        ),
        r.body@ == base64_encoded(body@),
        base64_decoded(r.body@) == Some(body@),
{
    let kept = keep_text(headers);
    HttpResponseFrame {
        req_id: req_id.to_string(),
        status,
        headers: kept,
        body: base64_encode(body),
    }
}

/// The frame that answers request `req_id` when the local server could not
/// be reached: status 502, no headers, and `proxy error: ` followed by
/// the error's text as the body.
pub fn proxy_error_frame(req_id: &str, error: &str) -> (r: HttpResponseFrame)
    ensures
        r.req_id@ == req_id@,
        r.status == 502,
        r.headers@.len() == 0,
        base64_decoded(r.body@) == Some(encode_utf8("proxy error: "@ + error@)),
{
    let text = string_of(concat_chars(chars_of("proxy error: ").as_slice(), chars_of(error).as_slice()).as_slice());
    HttpResponseFrame {
        req_id: req_id.to_string(),
        status: 502,
        headers: Vec::new(),
        body: base64_encode(text.as_str().as_bytes()),
    }
}

/// A byte of an HTTP token: an ASCII letter or digit, or one of
/// ``!#$%&'*+-.^_`|~``.
pub open spec fn is_tchar(b: u8) -> bool {
    ||| (48 <= b <= 57) || (65 <= b <= 90) || (97 <= b <= 122)
    ||| b == 33 || b == 35 || b == 36 || b == 37 || b == 38 || b == 39 || b == 42
    ||| b == 43 || b == 45 || b == 46 || b == 94 || b == 95 || b == 96 || b == 124 || b == 126
}

/// A valid header name: a token of 1 to 65535 bytes.
pub open spec fn header_name_ok(name: Seq<u8>) -> bool {
    &&& 1 <= name.len() <= 65535
    &&& forall|i: int| 0 <= i < name.len() ==> is_tchar(#[trigger] name[i])
}

/// A valid header value: no control byte but the tab, and no DEL.
pub open spec fn header_value_ok(value: Seq<u8>) -> bool {
    forall|i: int| 0 <= i < value.len() ==> ((#[trigger] value[i] >= 32 && value[i] != 127)
        || value[i] == 9)
}

/// Whether `http::HeaderName::from_bytes` accepts the bytes of `name`.
/// The contract claims that it does exactly for a token of 1 to 65535
/// bytes (its table of token bytes maps capitals to small letters and
/// everything else to zero, which it refuses).
#[verifier::external_body]
fn header_name_valid(name: &str) -> (r: bool)
    ensures
        r == header_name_ok(encode_utf8(name@)),
{
    axum::http::HeaderName::from_bytes(name.as_bytes()).is_ok()
}

/// Whether `http::HeaderValue::from_str` accepts `value`. The contract
/// claims that it does exactly when no byte is a control byte other than
/// the tab, nor DEL.
#[verifier::external_body]
fn header_value_valid(value: &str) -> (r: bool)
    ensures
        r == header_value_ok(encode_utf8(value@)),
{
    axum::http::HeaderValue::from_str(value).is_ok()
}

/// The headers that HTTP accepts, in order: valid name and valid value.
pub open spec fn valid_headers(hs: Seq<(Seq<char>, Seq<char>)>) -> Seq<(Seq<char>, Seq<char>)>
    decreases hs.len(),
{
    if hs.len() == 0 {
        Seq::empty()
    } else {
        let rest = valid_headers(hs.drop_last());
        if header_name_ok(encode_utf8(hs.last().0)) && header_value_ok(encode_utf8(hs.last().1)) {
            rest.push(hs.last())
        } else {
            rest
        }
    }
}

/// The pairs of `hs` whose name and value HTTP accepts, in order.
pub fn keep_valid_headers(hs: &Vec<(String, String)>) -> (r: Vec<(String, String)>)
    ensures
        r@.map_values(|h: (String, String)| (h.0@, h.1@)) == valid_headers(
            hs@.map_values(|h: (String, String)| (h.0@, h.1@)),
        ),
{
    let ghost hv = hs@.map_values(|h: (String, String)| (h.0@, h.1@));
    let mut kept: Vec<(String, String)> = Vec::new();
    let mut i: usize = 0;
    while i < hs.len()
        invariant
            i <= hs@.len() == hv.len(),
            hv == hs@.map_values(|h: (String, String)| (h.0@, h.1@)),
            kept@.map_values(|h: (String, String)| (h.0@, h.1@)) == valid_headers(hv.take(i as int)),
        decreases hs@.len() - i,
    {
        let ghost before = kept@.map_values(|h: (String, String)| (h.0@, h.1@));
        assert(hv.take(i + 1).drop_last() =~= hv.take(i as int));
        assert(hv.take(i + 1).last() == hv[i as int]);
        if header_name_valid(hs[i].0.as_str()) && header_value_valid(hs[i].1.as_str()) {
            kept.push((hs[i].0.clone(), hs[i].1.clone()));
            assert(kept@.map_values(|h: (String, String)| (h.0@, h.1@)) =~= before.push(hv[i as int]));
        }
        i = i + 1;
    }
    assert(hv.take(hs@.len() as int) =~= hv);
    kept
}

/// The pairs of `hs` that have a text value, in order.
fn keep_text(hs: &Vec<(String, Option<String>)>) -> (r: Vec<(String, String)>)
    ensures
        r@.map_values(|h: (String, String)| (h.0@, h.1@)) == text_headers(
            hs@.map_values(|h: (String, Option<String>)| header_view(h)),
        ),
{
    let ghost hv = hs@.map_values(|h: (String, Option<String>)| header_view(h));
    let mut kept: Vec<(String, String)> = Vec::new();
    let mut i: usize = 0;
    while i < hs.len()
        invariant
            i <= hs@.len() == hv.len(),
            hv == hs@.map_values(|h: (String, Option<String>)| header_view(h)),
            kept@.map_values(|h: (String, String)| (h.0@, h.1@)) == text_headers(hv.take(i as int)),
        decreases hs@.len() - i,
    {
        let ghost before = kept@.map_values(|h: (String, String)| (h.0@, h.1@));
        assert(hv.take(i + 1).drop_last() =~= hv.take(i as int));
        match &hs[i].1 {
            Some(v) => {
                kept.push((hs[i].0.clone(), v.clone()));
                assert(kept@.map_values(|h: (String, String)| (h.0@, h.1@)) =~= before.push(
                    (hv[i as int].0, v@),
                ));
            },
            None => {},
        }
        i = i + 1;
    }
    assert(hv.take(hs@.len() as int) =~= hv);
    kept
}


/// The frame types of the tunnel protocol: bridged-stream data, close and
/// open, and proxied HTTP requests and responses.
pub open spec fn tunnel_types() -> Set<Seq<char>> {
    set!["ws_data"@, "ws_close"@, "ws_open"@, "http_req"@, "http_resp"@]
}

/// Frames of the tunnel protocol never reach a phone's terminal stream,
/// and every other frame from the desktop does.
pub proof fn law_tunnel_frames_stay_off_the_terminal(frame: Seq<u8>)
    ensures
        (json_string_at(frame, "type"@) matches Some(t) && tunnel_types().contains(t)) ==> !reaches_mobile(
            frame,
        ),
        !(json_string_at(frame, "type"@) matches Some(t) && tunnel_types().contains(t)) ==> reaches_mobile(
            frame,
        ),
{
}

/// The name a replayed request is sent with.
pub open spec fn method_name(m: HttpMethod) -> Seq<char> {
    match m {
        HttpMethod::Get => "GET"@,
        HttpMethod::Post => "POST"@,
        HttpMethod::Put => "PUT"@,
        HttpMethod::Delete => "DELETE"@,
        HttpMethod::Patch => "PATCH"@,
        HttpMethod::Head => "HEAD"@,
    }
}

/// Every method is replayed as itself: reading a method's name gives the
/// method back, and a method read as anything but `GET` is the one its
/// name says.
pub proof fn law_methods_are_replayed_as_themselves(m: HttpMethod, name: Seq<char>)
    ensures
        method_for(method_name(m)) == m,
        method_for(name) != HttpMethod::Get ==> method_name(method_for(name)) == name,
{
    reveal_strlit("GET");
    reveal_strlit("POST");
    reveal_strlit("PUT");
    reveal_strlit("DELETE");
    reveal_strlit("PATCH");
    reveal_strlit("HEAD");
    let names = seq!["GET"@, "POST"@, "PUT"@, "DELETE"@, "PATCH"@, "HEAD"@];
    assert forall|a: int, b: int| 0 <= a < b < 6 implies names[a] != names[b] by {
        assert(names[a][0] != names[b][0] || names[a].len() != names[b].len() || names[a][1]
            != names[b][1]);
    }
    assert(names[0] == "GET"@ && names[1] == "POST"@ && names[2] == "PUT"@);
    assert(names[3] == "DELETE"@ && names[4] == "PATCH"@ && names[5] == "HEAD"@);
}

} // verus!
