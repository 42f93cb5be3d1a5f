//! The desktop's outbound client to the relay: when to connect, what to
//! send first, how long to wait before the next attempt, which pane gets
//! the phone's keystrokes, what screen frame goes out, and the table of
//! bridged streams.
use vstd::prelude::*;
use vstd::arithmetic::power2::{lemma2_to64, lemma_pow2_pos, lemma_pow2_unfold, pow2};
use crate::relay::IdTable;
use crate::server::next_backoff;
use crate::text::str_eq;
use crate::wire::{RelayCommand, TunnelFrame, TunnelFrameView};

verus! {

/// The longest wait between two attempts of the desktop server, in seconds.
pub const SERVER_MAX_BACKOFF_SECS: u64 = 60;

/// The longest wait between two attempts of the desktop app, in seconds.
pub const APP_MAX_BACKOFF_SECS: u64 = 30;

/// How often the active pane's screen is sent, in milliseconds.
pub const SCREEN_INTERVAL_MS: u64 = 200;

/// The first frame the desktop sends on a new relay connection:
/// `{"v": 1, "desktop_id": ..}`.
#[derive(Clone, Debug)]
pub struct Hello {
    pub v: u8,
    pub desktop_id: String,
}

/// The hello frame for `desktop_id`, protocol version 1.
pub fn hello_frame(desktop_id: &str) -> (r: Hello)
    ensures
        r.v == 1,
        r.desktop_id@ == desktop_id@,
{
    Hello { v: 1, desktop_id: desktop_id.to_string() }
}

/// The client's state between two events: the wait before the next
/// attempt, in seconds.
#[derive(Clone, Copy, Debug, PartialEq, Eq, Structural)]
pub struct LinkState {
    pub backoff_secs: u64,
}

/// The state a client starts in: a wait of one second.
pub fn initial_link_state() -> (r: LinkState)
    ensures
        r.backoff_secs == 1,
{
    LinkState { backoff_secs: 1 }
}

/// What happened to the client's connection.
#[derive(Clone, Copy, Debug, PartialEq, Eq, Structural)]
pub enum LinkEvent {
    /// The client was started.
    Start,
    /// A wait ended.
    Waited,
    /// The connection to the relay could not be made.
    ConnectFailed,
    /// The connection to the relay was made.
    Connected,
    /// The hello frame could not be sent.
    HelloFailed,
    /// The hello frame was sent.
    HelloSent,
    /// The running connection ended.
    Lost,
}

/// What the client does next.
#[derive(Clone, Debug)]
pub enum LinkAction {
    /// Abort the bridges of the last connection, start with an empty
    /// stream table and connect to the relay.
    Connect,
    /// Send this hello frame first.
    SendHello(Hello),
    /// Run the connection: read the relay's frames and send screens.
    Run,
    /// Wait this many seconds, then report `Waited`.
    Wait(u64),
    /// Stop the client.
    Stop,
}

/// The wait after `b` seconds: twice as long, at most `max`.
pub open spec fn doubled(b: u64, max: u64) -> u64 {
    if b * 2 < max {
        (b * 2) as u64
    } else {
        max
    }
}

/// The desktop server's client: on shutdown it stops; it connects on start
/// and after each wait; a failed connection waits and doubles the wait up
/// to `max_secs`; a made connection sets the wait back to one second and
/// sends the hello frame; a failed hello or a lost connection waits
/// without doubling; a sent hello runs the connection.
pub fn relay_link_step(s: &LinkState, e: LinkEvent, desktop_id: &str, max_secs: u64, shutdown: bool) -> (r: (LinkState, LinkAction))
    requires
        1 <= s.backoff_secs <= max_secs <= u64::MAX / 2,
    ensures
        1 <= r.0.backoff_secs <= max_secs,
        shutdown ==> r.0 == *s && r.1 is Stop,
        !shutdown && (e is Start || e is Waited) ==> r.0 == *s && r.1 is Connect,
        !shutdown && e is ConnectFailed ==> r.0.backoff_secs == doubled(s.backoff_secs, max_secs)
            && r.1 == LinkAction::Wait(s.backoff_secs),
        !shutdown && e is Connected ==> r.0.backoff_secs == 1 && (r.1 matches LinkAction::SendHello(h)
            && h.v == 1 && h.desktop_id@ == desktop_id@),
        !shutdown && e is HelloFailed ==> r.0 == *s && r.1 == LinkAction::Wait(s.backoff_secs),
        !shutdown && e is HelloSent ==> r.0 == *s && r.1 is Run,
        !shutdown && e is Lost ==> r.0 == *s && r.1 == LinkAction::Wait(s.backoff_secs),
{
    if shutdown {
        return (*s, LinkAction::Stop);
    }
    match e {
        LinkEvent::Start | LinkEvent::Waited => (*s, LinkAction::Connect),
        LinkEvent::ConnectFailed => {
            let next = next_backoff(s.backoff_secs, max_secs);
            (LinkState { backoff_secs: next }, LinkAction::Wait(s.backoff_secs))
        },
        LinkEvent::Connected => (LinkState { backoff_secs: 1 }, LinkAction::SendHello(hello_frame(desktop_id))),
        LinkEvent::HelloFailed => (*s, LinkAction::Wait(s.backoff_secs)),
        LinkEvent::HelloSent => (*s, LinkAction::Run),
        LinkEvent::Lost => (*s, LinkAction::Wait(s.backoff_secs)),
    }
}

/// The desktop app's client, which has no shutdown: it connects on start
/// and after each wait; a failed connection and a lost connection wait and
/// double the wait up to thirty seconds; a made connection sends the hello
/// frame; a failed hello waits without doubling; a sent hello sets the
/// wait back to one second and runs the connection.
pub fn app_link_step(s: &LinkState, e: LinkEvent, desktop_id: &str) -> (r: (LinkState, LinkAction))
    requires
        1 <= s.backoff_secs <= APP_MAX_BACKOFF_SECS,
    ensures
        1 <= r.0.backoff_secs <= APP_MAX_BACKOFF_SECS,
        (e is Start || e is Waited) ==> r.0 == *s && r.1 is Connect,
        (e is ConnectFailed || e is Lost) ==> r.0.backoff_secs == doubled(s.backoff_secs, APP_MAX_BACKOFF_SECS)
            && r.1 == LinkAction::Wait(s.backoff_secs),
        e is Connected ==> r.0 == *s && (r.1 matches LinkAction::SendHello(h) && h.v == 1
            && h.desktop_id@ == desktop_id@),
        e is HelloFailed ==> r.0 == *s && r.1 == LinkAction::Wait(s.backoff_secs),
        e is HelloSent ==> r.0.backoff_secs == 1 && r.1 is Run,
{
    match e {
        LinkEvent::Start | LinkEvent::Waited => (*s, LinkAction::Connect),
        LinkEvent::ConnectFailed | LinkEvent::Lost => {
            let next = next_backoff(s.backoff_secs, APP_MAX_BACKOFF_SECS);
            (LinkState { backoff_secs: next }, LinkAction::Wait(s.backoff_secs))
        },
        LinkEvent::Connected => (*s, LinkAction::SendHello(hello_frame(desktop_id))),
        LinkEvent::HelloFailed => (*s, LinkAction::Wait(s.backoff_secs)),
        LinkEvent::HelloSent => (LinkState { backoff_secs: 1 }, LinkAction::Run),
    }
}

/// The wait after `n` failed connections in a row, starting from `b`.
pub open spec fn wait_after_failures(b: u64, max: u64, n: nat) -> u64
    decreases n,
{
    if n == 0 {
        b
    } else {
        doubled(wait_after_failures(b, max, (n - 1) as nat), max)
    }
}

/// Failed connections never push the wait past the cap nor below one
/// second, and once the wait reaches the cap it stays there.
pub proof fn law_wait_is_capped(b: u64, max: u64, n: nat)
    requires
        1 <= b <= max <= u64::MAX / 2,
    ensures
        1 <= wait_after_failures(b, max, n) <= max,
        b == max ==> wait_after_failures(b, max, n) == max,
    decreases n,
{
    if n > 0 {
        law_wait_is_capped(b, max, (n - 1) as nat);
    }
}

/// Starting from one second, the waits after failed connections double
/// (1, 2, 4, ...) until they reach the cap, and stay there.
pub proof fn law_waits_double_up_to_the_cap(max: u64, n: nat)
    requires
        1 <= max <= u64::MAX / 2,
    ensures
        wait_after_failures(1, max, n) == (if pow2(n) < max {
            pow2(n)
        } else {
            max as nat
        }),
    decreases n,
{
    if n > 0 {
        law_waits_double_up_to_the_cap(max, (n - 1) as nat);
        lemma_pow2_unfold(n);
        lemma_pow2_pos((n - 1) as nat);
    } else {
        lemma2_to64();
    }
}

/// The pane a phone's keystrokes go to: the one the frame names, else the
/// active pane.
pub fn input_target(pane_id: Option<String>, active: Option<String>) -> (r: Option<String>)
    ensures
        pane_id is Some ==> r == pane_id,
        pane_id is None ==> r == active,
{
    match pane_id {
        Some(p) => Some(p),
        None => active,
    }
}

/// A pane's terminal as the desktop sees it: its size and the text of its
/// screen.
#[derive(Clone, Debug)]
pub struct ScreenState {
    pub pane_id: String,
    pub cols: u16,
    pub rows: u16,
    pub screen: String,
}

/// The frame `{"type": "screen", pane_id, cols, rows, screen}` that pushes a
/// pane's screen to the phones.
#[derive(Clone, Debug)]
pub struct ScreenFrame {
    pub pane_id: String,
    pub cols: u16,
    pub rows: u16,
    pub screen: String,
}

/// Whether entry `i` is the first with the pane id `id`.
pub open spec fn first_screen_of(sessions: Seq<ScreenState>, id: Seq<char>, i: int) -> bool {
    &&& 0 <= i < sessions.len()
    &&& sessions[i].pane_id@ == id
    &&& forall|j: int| 0 <= j < i ==> sessions[j].pane_id@ != id
}

/// The screen frame of the active pane: none when no pane is active or the
/// active pane has no session; else the size and screen of its (first)
/// session.
pub fn screen_frame(active: Option<&str>, sessions: &Vec<ScreenState>) -> (r: Option<ScreenFrame>)
    ensures
        r is Some <==> (active is Some && exists|i: int|
            0 <= i < sessions@.len() && #[trigger] sessions@[i].pane_id@ == active.unwrap()@),
        r matches Some(f) ==> exists|i: int|
            first_screen_of(sessions@, active.unwrap()@, i) && f.pane_id@ == #[trigger] sessions@[i].pane_id@
                && f.cols == sessions@[i].cols && f.rows == sessions@[i].rows
                && f.screen@ == sessions@[i].screen@,
{
    let a = match active {
        Some(a) => a,
        None => return None,
    };
    let mut i: usize = 0;
    while i < sessions.len()
        invariant
            active is Some && active.unwrap()@ == a@,
            i <= sessions@.len(),
            forall|j: int| 0 <= j < i ==> #[trigger] sessions@[j].pane_id@ != a@,
        decreases sessions@.len() - i,
    {
        let st = &sessions[i];
        if str_eq(st.pane_id.as_str(), a) {
            let f = ScreenFrame {
                pane_id: st.pane_id.clone(),
                cols: st.cols,
                rows: st.rows,
                screen: st.screen.clone(),
            };
            assert(sessions@[i as int].pane_id@ == active.unwrap()@);
            assert(first_screen_of(sessions@, active.unwrap()@, i as int));
            return Some(f);
        }
        i = i + 1;
    }
    None
}

/// The desktop's bridged streams: each stream id with the slot that reaches
/// its local WebSocket. A stream is entered once its local connection is
/// made.
pub type StreamTable<S> = IdTable<S>;

/// What the desktop does with a command from the relay, as far as the
/// stream table decides it.
pub enum StreamEffect<S> {
    /// Open a local WebSocket at `path` for the stream.
    OpenBridge { stream_id: String, path: String },
    /// Hand the data to the stream's local WebSocket, as binary or text.
    Deliver { stream_id: String, data: Vec<u8>, binary: bool },
    /// The stream was removed: close its local WebSocket through `slot`.
    CloseLocal { stream_id: String, slot: S },
    /// Data or a close for a stream that is not in the table: dropped.
    Unknown,
    /// Not a stream command: handed back as it came.
    Other(RelayCommand),
}

/// One command from the relay against the stream table: `ws_open` opens a
/// bridge and leaves the table as it is (the stream enters it once the
/// local connection is made); `ws_data` goes to the stream's local socket
/// when the stream is in the table; `ws_close` removes the stream and
/// closes its local socket; data or a close for any other stream is
/// dropped; other commands are handed back.
pub fn stream_table_step<S>(t: &mut StreamTable<S>, cmd: RelayCommand) -> (r: StreamEffect<S>)
    requires
        old(t).wf(),
    ensures
        final(t).wf(),
        cmd matches RelayCommand::WsOpen { stream_id, path } ==> final(t)@ == old(t)@
            && r == (StreamEffect::<S>::OpenBridge { stream_id, path }),
        cmd matches RelayCommand::WsData { stream_id, data, binary } ==> final(t)@ == old(t)@ && (
            if old(t)@.contains_key(stream_id@) {
                r == (StreamEffect::<S>::Deliver { stream_id, data, binary })
            } else {
                r is Unknown
            }),
        cmd matches RelayCommand::WsClose { stream_id } ==> final(t)@ == old(t)@.remove(stream_id@) && (
            if old(t)@.contains_key(stream_id@) {
                r == (StreamEffect::<S>::CloseLocal { stream_id, slot: old(t)@[stream_id@] })
            } else {
                r is Unknown
            }),
        !(cmd is WsOpen || cmd is WsData || cmd is WsClose) ==> final(t)@ == old(t)@
            && r == StreamEffect::<S>::Other(cmd),
{
    match cmd {
        RelayCommand::WsOpen { stream_id, path } => StreamEffect::OpenBridge { stream_id, path },
        RelayCommand::WsData { stream_id, data, binary } => {
            if t.get(stream_id.as_str()).is_some() {
                StreamEffect::Deliver { stream_id, data, binary }
            } else {
                StreamEffect::Unknown
            }
        },
        RelayCommand::WsClose { stream_id } => match t.remove(stream_id.as_str()) {
            Some(slot) => StreamEffect::CloseLocal { stream_id, slot },
            None => StreamEffect::Unknown,
        },
        other => StreamEffect::Other(other),
    }
}

/// A bridge's local connection was made: the stream enters the table with
/// `slot`, in place of any slot it had.
pub fn bridge_opened<S>(t: &mut StreamTable<S>, stream_id: String, slot: S)
    requires
        old(t).wf(),
    ensures
        final(t).wf(),
        final(t)@ == old(t)@.insert(stream_id@, slot),
{
    t.register(stream_id, slot);
}

/// A bridge ended: the stream leaves the table, and the relay is told with
/// a final `ws_close` for it.
pub fn bridge_finished<S>(t: &mut StreamTable<S>, stream_id: &str) -> (r: TunnelFrame)
    requires
        old(t).wf(),
    ensures
        final(t).wf(),
        final(t)@ == old(t)@.remove(stream_id@),
        r@ == (TunnelFrameView::Close { stream_id: stream_id@ }),
{
    let _ = t.remove(stream_id);
    TunnelFrame::Close { stream_id: stream_id.to_string() }
}

} // verus!
