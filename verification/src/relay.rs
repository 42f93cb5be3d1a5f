//! The relay between phones and desktops: its password check, desktop
//! registration, the choice of the desktop a request goes to, and what
//! the relay does with each WebSocket frame of a desktop or a phone.
use vstd::prelude::*;
use vstd::utf8::encode_utf8;
use vstd::string::StringSliceAdditionalSpecFns;
use crate::text::{
    ascii_lower, chars_of, eq_ignore_ascii_case, lower_ascii_char, split_chars, split_on, str_eq,
    string_of, strip_prefix, strip_prefix_chars, trim_start_char, trim_start_chars,
};
use crate::shell_profiles::strings_view;
use crate::server::{guess_mime, guessed_mime};
use crate::wire::{
    json_string_at, json_string_field, json_u64_at, json_u64_field, opt_string_view, WsMessage,
};

verus! {

/// The request headers the relay authenticates with, as text: each is
/// `None` when absent or not visible ASCII.
#[derive(Clone, Debug)]
pub struct AuthHeaders {
    /// The `authorization` header.
    pub authorization: Option<String>,
    /// The `x-relay-token` header.
    pub x_relay_token: Option<String>,
}

/// The password a request offers: the `authorization` header after a
/// `Bearer ` prefix, else the `x-relay-token` header.
pub open spec fn offered_password(h: AuthHeaders) -> Option<Seq<char>> {
    match h.authorization {
        Some(a) => match strip_prefix(a@, "Bearer "@) {
            Some(p) => Some(p),
            None => opt_string_view(h.x_relay_token),
        },
        None => opt_string_view(h.x_relay_token),
    }
}

/// Compares two byte strings in time that does not depend on where they
/// differ (`subtle::ConstantTimeEq::ct_eq` on slices, turned into a
/// `bool`): true exactly when they are equal.
#[verifier::external_body]
fn bytes_equal_ct(a: &[u8], b: &[u8]) -> (r: bool)
    ensures
        r == (a@ == b@),
{
    subtle::ConstantTimeEq::ct_eq(a, b).into()
}

/// The password a request offers, if any.
fn offered(headers: &AuthHeaders) -> (r: Option<String>)
    ensures
        opt_string_view(r) == offered_password(*headers),
{
    let from_auth = match &headers.authorization {
        Some(a) => {
            let av = chars_of(a.as_str());
            let pv = chars_of("Bearer ");
            match strip_prefix_chars(av.as_slice(), pv.as_slice()) {
                Some(rest) => Some(string_of(rest.as_slice())),
                None => None,
            }
        },
        None => None,
    };
    match from_auth {
        Some(p) => Some(p),
        None => match &headers.x_relay_token {
            Some(t) => Some(t.clone()),
            None => None,
        },
    }
}

/// Whether the request offers exactly the relay's password. The offered
/// password is compared in constant time once its length matches.
pub fn check_password(headers: &AuthHeaders, expected: &str) -> (r: bool)
    ensures
        r == (offered_password(*headers) == Some(expected@)),
{
    match offered(headers) {
        Some(p) => {
            let ps = p.as_str();
            if ps.len() != expected.len() {
                proof {
                    if p@ == expected@ {
                        assert(ps.spec_bytes() == expected.spec_bytes());
                    }
                }
                return false;
            }
            let r = bytes_equal_ct(ps.as_bytes(), expected.as_bytes());
            proof {
                vstd::utf8::encode_utf8_decode_utf8(p@);
                vstd::utf8::encode_utf8_decode_utf8(expected@);
            }
            r
        },
        None => false,
    }
}

/// The answer to a desktop's registration.
#[derive(Clone, Copy, Debug, PartialEq, Eq, Structural)]
pub enum RegisterOutcome {
    /// 401: the password is wrong.
    Unauthorized,
    /// 400: the desktop id is empty or longer than 128 bytes.
    InvalidId,
    /// 200: the desktop's slot is (re)created.
    Registered,
}

impl RegisterOutcome {
    /// The HTTP status of the answer.
    pub fn status(&self) -> (s: u16)
        ensures
            s == (match self {
                RegisterOutcome::Unauthorized => 401u16,
                RegisterOutcome::InvalidId => 400u16,
                RegisterOutcome::Registered => 200u16,
            }),
    {
        match self {
            RegisterOutcome::Unauthorized => 401,
            RegisterOutcome::InvalidId => 400,
            RegisterOutcome::Registered => 200,
        }
    }

    /// The text a refused registration is answered with (empty when it is
    /// accepted).
    pub fn message(&self) -> (m: &'static str)
        ensures
            m@ == (match self {
                RegisterOutcome::Unauthorized => "wrong password"@,
                RegisterOutcome::InvalidId => "desktop_id invalid"@,
                RegisterOutcome::Registered => ""@,
            }),
    {
        match self {
            RegisterOutcome::Unauthorized => "wrong password",
            RegisterOutcome::InvalidId => "desktop_id invalid",
            RegisterOutcome::Registered => "",
        }
    }
}

/// A desktop id is valid when it is not empty and at most 128 bytes long.
pub open spec fn valid_desktop_id(id: Seq<char>) -> bool {
    id.len() > 0 && encode_utf8(id).len() <= 128
}

/// How the relay answers a desktop that registers under `desktop_id`: the
/// password is checked first, then the id.
pub open spec fn register_outcome(headers: AuthHeaders, password: Seq<char>, desktop_id: Seq<char>) -> RegisterOutcome {
    if offered_password(headers) != Some(password) {
        RegisterOutcome::Unauthorized
    } else if !valid_desktop_id(desktop_id) {
        RegisterOutcome::InvalidId
    } else {
        RegisterOutcome::Registered
    }
}

/// A table of slots `S` keyed by string ids, each id at most once: the
/// relay's registered desktops, and a desktop's bridged streams.
#[verifier::reject_recursive_types(S)]
pub struct IdTable<S> {
    entries: Vec<(String, S)>,
    map: Ghost<Map<Seq<char>, S>>,
}

impl<S> View for IdTable<S> {
    type V = Map<Seq<char>, S>;

    closed spec fn view(&self) -> Map<Seq<char>, S> {
        self.map@
    }
}

impl<S> IdTable<S> {
    /// The id of entry `i`.
    closed spec fn id_at(&self, i: int) -> Seq<char> {
        self.entries@[i].0@
    }

    /// The entries hold exactly the view's ids, each once, with their slots.
    pub closed spec fn wf(&self) -> bool {
        &&& forall|i: int|
            0 <= i < self.entries@.len() ==> #[trigger] self.map@.contains_key(self.id_at(i))
                && self.map@[self.id_at(i)] == self.entries@[i].1
        &&& forall|i: int, j: int|
            0 <= i < j < self.entries@.len() ==> self.id_at(i) != self.id_at(j)
        &&& forall|k: Seq<char>|
            #[trigger] self.map@.contains_key(k) ==> exists|i: int|
                0 <= i < self.entries@.len() && self.id_at(i) == k
    }

    /// The empty table.
    pub fn new() -> (r: Self)
        ensures
            r.wf(),
            r@ == Map::<Seq<char>, S>::empty(),
    {
        IdTable { entries: Vec::new(), map: Ghost(Map::empty()) }
    }

    /// The position of `id`, if it is registered.
    fn find(&self, id: &str) -> (r: Option<usize>)
        requires
            self.wf(),
        ensures
            r matches Some(i) ==> i < self.entries@.len() && self.id_at(i as int) == id@,
            r is None ==> !self@.contains_key(id@),
    {
        let mut i: usize = 0;
        while i < self.entries.len()
            invariant
                self.wf(),
                i <= self.entries@.len(),
                forall|j: int| 0 <= j < i ==> self.id_at(j) != id@,
            decreases self.entries@.len() - i,
        {
            if str_eq(self.entries[i].0.as_str(), id) {
                return Some(i);
            }
            i = i + 1;
        }
        proof {
            if self@.contains_key(id@) {
                let j = choose|j: int| 0 <= j < self.entries@.len() && self.id_at(j) == id@;
                assert(self.id_at(j) != id@);
            }
        }
        None
    }

    /// The slot of `id`, if it is registered.
    pub fn get(&self, id: &str) -> (r: Option<&S>)
        requires
            self.wf(),
        ensures
            r is Some <==> self@.contains_key(id@),
            r matches Some(x) ==> *x == self@[id@],
    {
        match self.find(id) {
            Some(i) => {
                assert(self.map@.contains_key(self.id_at(i as int)));
                Some(&self.entries[i].1)
            },
            None => None,
        }
    }

    /// The registered ids, each once.
    pub fn ids(&self) -> (r: Vec<String>)
        requires
            self.wf(),
        ensures
            forall|i: int, j: int| 0 <= i < j < r@.len() ==> r@[i]@ != r@[j]@,
            forall|k: Seq<char>|
                self@.contains_key(k) <==> strings_view(r@).contains(k),
    {
        let mut r: Vec<String> = Vec::new();
        let mut i: usize = 0;
        while i < self.entries.len()
            invariant
                self.wf(),
                i <= self.entries@.len(),
                r@.len() == i,
                forall|j: int| 0 <= j < i ==> #[trigger] r@[j]@ == self.id_at(j),
            decreases self.entries@.len() - i,
        {
            r.push(self.entries[i].0.clone());
            i = i + 1;
        }
        assert forall|k: Seq<char>| self@.contains_key(k) <==> strings_view(r@).contains(k) by {
            if self@.contains_key(k) {
                let j = choose|j: int| 0 <= j < self.entries@.len() && self.id_at(j) == k;
                assert(strings_view(r@)[j] == k);
            }
            if strings_view(r@).contains(k) {
                let j = choose|j: int| 0 <= j < r@.len() && strings_view(r@)[j] == k;
                assert(r@[j]@ == k);
                assert(self.map@.contains_key(self.id_at(j)));
            }
        }
        r
    }

    /// Registers `id` with `slot`, replacing the slot it had.
    pub fn register(&mut self, id: String, slot: S)
        requires
            old(self).wf(),
        ensures
            final(self).wf(),
            final(self)@ == old(self)@.insert(id@, slot),
    {
        let ghost k = id@;
        let ghost s = slot;
        match self.find(id.as_str()) {
            Some(i) => {
                proof {
                    assert(self.map@.contains_key(self.id_at(i as int)));
                }
                self.entries.set(i, (id, slot));
                self.map = Ghost(self.map@.insert(k, s));
                assert forall|j: int|
                    0 <= j < self.entries@.len() implies #[trigger] self.map@.contains_key(
                    self.id_at(j),
                ) && self.map@[self.id_at(j)] == self.entries@[j].1 by {
                    if j != i {
                        if j < i {
                            assert(old(self).id_at(j) != old(self).id_at(i as int));
                        } else {
                            assert(old(self).id_at(i as int) != old(self).id_at(j));
                        }
                        assert(old(self).map@.contains_key(old(self).id_at(j)));
                    }
                }
                assert forall|a: int, b: int|
                    0 <= a < b < self.entries@.len() implies self.id_at(a) != self.id_at(b) by {
                    assert(old(self).id_at(a) != old(self).id_at(b));
                }
                assert forall|q: Seq<char>| #[trigger] self.map@.contains_key(q) implies exists|
                    j: int,
                | 0 <= j < self.entries@.len() && self.id_at(j) == q by {
                    if q == k {
                        assert(self.id_at(i as int) == q);
                    } else {
                        assert(old(self).map@.contains_key(q));
                        let j = choose|j: int|
                            0 <= j < old(self).entries@.len() && old(self).id_at(j) == q;
                        assert(self.id_at(j) == q);
                    }
                }
            },
            None => {
                proof {
                    assert forall|j: int| 0 <= j < self.entries@.len() implies self.id_at(j) != k by {
                        assert(self.map@.contains_key(self.id_at(j)));
                    }
                }
                let n = self.entries.len();
                self.entries.push((id, slot));
                self.map = Ghost(self.map@.insert(k, s));
                assert(self.id_at(n as int) == k);
                assert forall|j: int|
                    0 <= j < self.entries@.len() implies #[trigger] self.map@.contains_key(
                    self.id_at(j),
                ) && self.map@[self.id_at(j)] == self.entries@[j].1 by {
                    if j < n {
                        assert(self.id_at(j) == old(self).id_at(j));
                        assert(old(self).map@.contains_key(old(self).id_at(j)));
                    }
                }
                assert forall|a: int, b: int|
                    0 <= a < b < self.entries@.len() implies self.id_at(a) != self.id_at(b) by {
                    assert(self.id_at(a) == old(self).id_at(a));
                    if b < n {
                        assert(self.id_at(b) == old(self).id_at(b));
                    }
                }
                assert forall|q: Seq<char>| #[trigger] self.map@.contains_key(q) implies exists|
                    j: int,
                | 0 <= j < self.entries@.len() && self.id_at(j) == q by {
                    if q == k {
                        assert(self.id_at(n as int) == q);
                    } else {
                        assert(old(self).map@.contains_key(q));
                        let j = choose|j: int|
                            0 <= j < old(self).entries@.len() && old(self).id_at(j) == q;
                        assert(self.id_at(j) == q);
                    }
                }
            },
        }
    }
}

impl<S> IdTable<S> {
    /// Removes `id`, handing back the slot it had.
    #[verifier::spinoff_prover]
    #[verifier::rlimit(40)]
    pub fn remove(&mut self, id: &str) -> (r: Option<S>)
        requires
            old(self).wf(),
        ensures
            final(self).wf(),
            final(self)@ == old(self)@.remove(id@),
            r is Some <==> old(self)@.contains_key(id@),
            r matches Some(x) ==> x == old(self)@[id@],
    {
        match self.find(id) {
            Some(i) => {
                proof {
                    assert(self.map@.contains_key(self.id_at(i as int)));
                }
                let ghost k = id@;
                let (_, slot) = self.entries.remove(i);
                self.map = Ghost(self.map@.remove(k));
                assert forall|j: int|
                    0 <= j < self.entries@.len() implies #[trigger] self.map@.contains_key(
                    self.id_at(j),
                ) && self.map@[self.id_at(j)] == self.entries@[j].1 by {
                    if j < i {
                        assert(self.id_at(j) == old(self).id_at(j));
                        assert(old(self).id_at(j) != old(self).id_at(i as int));
                        assert(old(self).map@.contains_key(old(self).id_at(j)));
                    } else {
                        assert(self.id_at(j) == old(self).id_at(j + 1));
                        assert(old(self).id_at(i as int) != old(self).id_at(j + 1));
                        assert(old(self).map@.contains_key(old(self).id_at(j + 1)));
                    }
                }
                assert forall|a: int, b: int|
                    0 <= a < b < self.entries@.len() implies self.id_at(a) != self.id_at(b) by {
                    let a0 = if a < i { a } else { a + 1 };
                    let b0 = if b < i { b } else { b + 1 };
                    assert(self.id_at(a) == old(self).id_at(a0));
                    assert(self.id_at(b) == old(self).id_at(b0));
                    assert(old(self).id_at(a0) != old(self).id_at(b0));
                }
                assert forall|q: Seq<char>| #[trigger] self.map@.contains_key(q) implies exists|
                    j: int,
                | 0 <= j < self.entries@.len() && self.id_at(j) == q by {
                    assert(old(self).map@.contains_key(q));
                    let j = choose|j: int|
                        0 <= j < old(self).entries@.len() && old(self).id_at(j) == q;
                    assert(j != i);
                    if j < i {
                        assert(self.id_at(j) == q);
                    } else {
                        assert(self.id_at(j - 1) == q);
                    }
                }
                assert(self.wf());
                Some(slot)
            },
            None => {
                assert(self@.remove(id@) =~= self@);
                None
            },
        }
    }
}

/// The desktops registered with the relay: each id with its slot (what
/// connects the desktop to its phones).
pub type DesktopRegistry<S> = IdTable<S>;

/// A desktop registers under `desktop_id` with a fresh `slot`: answered as
/// `register_outcome` says; when accepted, the id gets the new slot in
/// place of any old one and the other desktops stay; when refused, the
/// registry is unchanged.
pub fn register_desktop<S>(
    registry: &mut DesktopRegistry<S>,
    headers: &AuthHeaders,
    password: &str,
    desktop_id: String,
    slot: S,
) -> (r: RegisterOutcome)
    requires
        old(registry).wf(),
    ensures
        final(registry).wf(),
        r == register_outcome(*headers, password@, desktop_id@),
        r == RegisterOutcome::Registered ==> final(registry)@ == old(registry)@.insert(
            desktop_id@,
            slot,
        ),
        r != RegisterOutcome::Registered ==> final(registry)@ == old(registry)@,
{
    if !check_password(headers, password) {
        return RegisterOutcome::Unauthorized;
    }
    let bytes = desktop_id.as_str().as_bytes();
    if desktop_id.as_str().is_empty() || bytes.len() > 128 {
        return RegisterOutcome::InvalidId;
    }
    registry.register(desktop_id, slot);
    RegisterOutcome::Registered
}

/// The first `desktop_id=` parameter among the query's pieces, if any.
pub open spec fn desktop_param(pieces: Seq<Seq<char>>) -> Option<Seq<char>>
    decreases pieces.len(),
{
    if pieces.len() == 0 {
        None
    } else {
        match strip_prefix(pieces[0], "desktop_id="@) {
            Some(v) => Some(v),
            None => desktop_param(pieces.drop_first()),
        }
    }
}

/// The desktop a proxied request goes to: the first `desktop_id=`
/// parameter of the query (split at `&`), else the only registered
/// desktop when exactly one is.
pub open spec fn target_desktop(registered: Seq<Seq<char>>, query: Seq<char>) -> Option<Seq<char>> {
    match desktop_param(split_on(query, '&')) {
        Some(id) => Some(id),
        None => if registered.len() == 1 {
            Some(registered[0])
        } else {
            None
        },
    }
}

/// The desktop a proxied request with query `query` goes to, given the
/// ids of the registered desktops.
pub fn resolve_desktop_id(registered: &Vec<String>, query: &str) -> (r: Option<String>)
    ensures
        opt_string_view(r) == target_desktop(registered@.map_values(|s: String| s@), query@),
{
    let qv = chars_of(query);
    let pieces = split_chars(qv.as_slice(), '&');
    let ghost ps = split_on(qv@, '&');
    let prefix = chars_of("desktop_id=");
    let mut i: usize = 0;
    assert(ps.skip(0) =~= ps);
    while i < pieces.len()
        invariant
            i <= pieces@.len() == ps.len(),
            ps == split_on(query@, '&'),
            forall|j: int| 0 <= j < ps.len() ==> #[trigger] pieces@[j]@ == ps[j],
            prefix@ == "desktop_id="@,
            desktop_param(ps) == desktop_param(ps.skip(i as int)),
        decreases pieces@.len() - i,
    {
        assert(ps.skip(i as int)[0] == ps[i as int]);
        assert(ps.skip(i as int).drop_first() =~= ps.skip(i + 1));
        match strip_prefix_chars(pieces[i].as_slice(), prefix.as_slice()) {
            Some(v) => {
                assert(ps.skip(i as int).len() > 0);
                assert(desktop_param(ps.skip(i as int)) == Some(v@));
                return Some(string_of(v.as_slice()));
            },
            None => {},
        }
        i = i + 1;
    }
    assert(ps.skip(i as int).len() == 0);
    if registered.len() == 1 {
        Some(registered[0].clone())
    } else {
        None
    }
}

/// Whether `id` is among the registered desktops.
fn is_registered(registered: &Vec<String>, id: &str) -> (r: bool)
    ensures
        r == registered@.map_values(|s: String| s@).contains(id@),
{
    let ghost rs = registered@.map_values(|s: String| s@);
    let mut i: usize = 0;
    while i < registered.len()
        invariant
            i <= registered@.len() == rs.len(),
            rs == registered@.map_values(|s: String| s@),
            forall|j: int| 0 <= j < i ==> rs[j] != id@,
        decreases registered@.len() - i,
    {
        if str_eq(registered[i].as_str(), id) {
            assert(rs[i as int] == id@);
            return true;
        }
        i = i + 1;
    }
    false
}

/// Why a bridged WebSocket could not be opened.
#[derive(Clone, Copy, Debug, PartialEq, Eq, Structural)]
pub enum WsProxyError {
    /// 400: no desktop named and not exactly one registered.
    NoDesktopChosen,
    /// 502: the named desktop is not registered.
    DesktopNotRegistered,
}

impl WsProxyError {
    /// The HTTP status the refusal is answered with.
    pub fn status(&self) -> (s: u16)
        ensures
            s == (match self {
                WsProxyError::NoDesktopChosen => 400u16,
                WsProxyError::DesktopNotRegistered => 502u16,
            }),
    {
        match self {
            WsProxyError::NoDesktopChosen => 400,
            WsProxyError::DesktopNotRegistered => 502,
        }
    }

    /// The text the refusal is answered with.
    pub fn message(&self) -> (m: &'static str)
        ensures
            m@ == (match self {
                WsProxyError::NoDesktopChosen => "desktop_id required or exactly one desktop must be registered"@,
                WsProxyError::DesktopNotRegistered => "desktop not registered"@,
            }),
    {
        match self {
            WsProxyError::NoDesktopChosen => "desktop_id required or exactly one desktop must be registered",
            WsProxyError::DesktopNotRegistered => "desktop not registered",
        }
    }
}

/// The desktop a WebSocket opened on `/ws` is bridged to, or why there
/// is none.
pub fn ws_proxy_target(registered: &Vec<String>, query: &str) -> (r: Result<String, WsProxyError>)
    ensures
        ({
            let rs = registered@.map_values(|s: String| s@);
            match target_desktop(rs, query@) {
                None => r == Err::<String, WsProxyError>(WsProxyError::NoDesktopChosen),
                Some(id) => if rs.contains(id) {
                    r matches Ok(x) && x@ == id
                } else {
                    r == Err::<String, WsProxyError>(WsProxyError::DesktopNotRegistered)
                },
            }
        }),
{
    match resolve_desktop_id(registered, query) {
        None => Err(WsProxyError::NoDesktopChosen),
        Some(id) => if is_registered(registered, id.as_str()) {
            Ok(id)
        } else {
            Err(WsProxyError::DesktopNotRegistered)
        },
    }
}

/// What the relay does with one frame read from a desktop's or a phone's
/// WebSocket.
#[derive(Clone, Debug)]
pub enum FrameAction {
    /// Pass these bytes on to the other side.
    Forward(Vec<u8>),
    /// Read the next frame.
    Skip,
    /// Close the connection.
    Stop,
}

/// The mathematical content of a frame action.
pub enum FrameActionView {
    Forward(Seq<u8>),
    Skip,
    Stop,
}

impl View for FrameAction {
    type V = FrameActionView;

    open spec fn view(&self) -> FrameActionView {
        match self {
            FrameAction::Forward(b) => FrameActionView::Forward(b@),
            FrameAction::Skip => FrameActionView::Skip,
            FrameAction::Stop => FrameActionView::Stop,
        }
    }
}

/// The bytes of a message that carries data: a text's UTF-8 encoding, or
/// the binary payload.
pub open spec fn message_bytes(msg: WsMessage) -> Option<Seq<u8>> {
    match msg {
        WsMessage::Text(t) => Some(encode_utf8(t@)),
        WsMessage::Binary(b) => Some(b@),
        _ => None,
    }
}

/// The bytes of a data message.
fn data_of(msg: &WsMessage) -> (r: Option<Vec<u8>>)
    ensures
        r is Some <==> message_bytes(*msg) is Some,
        r matches Some(b) ==> b@ == message_bytes(*msg)->0,
{
    match msg {
        WsMessage::Text(t) => Some(vstd::slice::slice_to_vec(t.as_str().as_bytes())),
        WsMessage::Binary(b) => Some(vstd::slice::slice_to_vec(b.as_slice())),
        _ => None,
    }
}

/// What the relay does with a frame from a phone (`None` when reading
/// failed): data goes on to the desktop, a close or a failure ends the
/// connection, pings and pongs are skipped.
pub open spec fn mobile_action_spec(msg: Option<WsMessage>) -> FrameActionView {
    match msg {
        None => FrameActionView::Stop,
        Some(WsMessage::Close) => FrameActionView::Stop,
        Some(m) => match message_bytes(m) {
            Some(b) => FrameActionView::Forward(b),
            None => FrameActionView::Skip,
        },
    }
}

/// What the relay does with a frame read from a phone.
pub fn mobile_frame_action(msg: Option<&WsMessage>) -> (r: FrameAction)
    ensures
        r@ == mobile_action_spec(match msg {
            Some(m) => Some(*m),
            None => None,
        }),
{
    match msg {
        None => FrameAction::Stop,
        Some(WsMessage::Close) => FrameAction::Stop,
        Some(m) => match data_of(m) {
            Some(b) => FrameAction::Forward(b),
            None => FrameAction::Skip,
        },
    }
}

/// The relay's reading of a desktop's WebSocket: whether the desktop's
/// hello was seen, and what to do with the current frame. The first frame
/// must be a text frame holding the hello (`is_hello`); it is consumed,
/// and anything else first ends the connection. After it, frames are
/// handled as a phone's are.
pub open spec fn desktop_step_spec(hello_seen: bool, msg: Option<WsMessage>, is_hello: bool) -> (
    bool,
    FrameActionView,
) {
    if !hello_seen {
        match msg {
            Some(WsMessage::Text(_)) => if is_hello {
                (true, FrameActionView::Skip)
            } else {
                (false, FrameActionView::Stop)
            },
            _ => (false, FrameActionView::Stop),
        }
    } else {
        (true, mobile_action_spec(msg))
    }
}

/// One step of reading a desktop's WebSocket (`None` when reading
/// failed); `is_hello` tells whether a text frame holds the hello.
pub fn desktop_frame_step(hello_seen: bool, msg: Option<&WsMessage>, is_hello: bool) -> (r: (
    bool,
    FrameAction,
))
    ensures
        (r.0, r.1@) == desktop_step_spec(
            hello_seen,
            match msg {
                Some(m) => Some(*m),
                None => None,
            },
            is_hello,
        ),
{
    if !hello_seen {
        match msg {
            Some(WsMessage::Text(_)) => if is_hello {
                (true, FrameAction::Skip)
            } else {
                (false, FrameAction::Stop)
            },
            _ => (false, FrameAction::Stop),
        }
    } else {
        (true, mobile_frame_action(msg))
    }
}


/// The relay is opaque: once a desktop has said hello, every data frame of
/// the desktop or of a phone is passed on byte for byte; before the hello,
/// nothing of a desktop is passed on.
pub proof fn law_relay_is_opaque(msg: WsMessage, is_hello: bool)
    ensures
        message_bytes(msg) matches Some(b) ==> mobile_action_spec(Some(msg))
            == FrameActionView::Forward(b),
        message_bytes(msg) matches Some(b) ==> desktop_step_spec(true, Some(msg), is_hello) == (
            true,
            FrameActionView::Forward(b),
        ),
        !(desktop_step_spec(false, Some(msg), is_hello).1 is Forward),
{
}

/// Whether a desktop's first frame is its hello: a JSON object with `v`
/// equal to 1 and the `desktop_id` it connected under, so that the relay
/// can tell the desktop is the one it claims to be.
pub fn is_valid_hello(frame: &[u8], desktop_id: &str) -> (r: bool)
    ensures
        r == (json_u64_at(frame@, "v"@) == Some(1u64) && json_string_at(frame@, "desktop_id"@)
            == Some(desktop_id@)),
{
    let v = json_u64_field(frame, "v");
    let same_version = match v {
        Some(n) => n == 1,
        None => false,
    };
    if !same_version {
        return false;
    }
    match json_string_field(frame, "desktop_id") {
        Some(id) => str_eq(id.as_str(), desktop_id),
        None => false,
    }
}

/// The relay's command line options.
#[derive(Clone, Debug)]
pub struct RelayArgs {
    pub listen: Option<String>,
    pub password: Option<String>,
    pub cert: Option<String>,
    pub key: Option<String>,
}

/// The mathematical content of the relay's options.
pub struct RelayArgsView {
    pub listen: Option<Seq<char>>,
    pub password: Option<Seq<char>>,
    pub cert: Option<Seq<char>>,
    pub key: Option<Seq<char>>,
}

impl View for RelayArgs {
    type V = RelayArgsView;

    open spec fn view(&self) -> RelayArgsView {
        RelayArgsView {
            listen: opt_string_view(self.listen),
            password: opt_string_view(self.password),
            cert: opt_string_view(self.cert),
            key: opt_string_view(self.key),
        }
    }
}

/// What the relay's command line asks for.
#[derive(Clone, Debug)]
pub enum RelayCommandLine {
    /// Run with these options.
    Run(RelayArgs),
    /// Print the usage and exit.
    Help,
}

/// The argument after position `i`, if there is one.
pub open spec fn next_arg(args: Seq<Seq<char>>, i: int) -> Option<Seq<char>> {
    if 0 <= i + 1 < args.len() {
        Some(args[i + 1])
    } else {
        None
    }
}

/// The relay's options read from position `i` on, starting from `acc`;
/// `None` when `--help` or `-h` comes first. Each of `--listen`,
/// `--password`, `--cert` and `--key` takes the next argument (none at
/// the end); anything else is ignored.
pub open spec fn relay_args_from(args: Seq<Seq<char>>, i: int, acc: RelayArgsView) -> Option<
    RelayArgsView,
>
    decreases args.len() - i,
{
    if i < 0 || i >= args.len() {
        Some(acc)
    } else {
        let a = args[i];
        let after = if i + 2 <= args.len() {
            i + 2
        } else {
            args.len() as int
        };
        if a == "--listen"@ {
            relay_args_from(args, after, RelayArgsView { listen: next_arg(args, i), ..acc })
        } else if a == "--password"@ {
            relay_args_from(args, after, RelayArgsView { password: next_arg(args, i), ..acc })
        } else if a == "--cert"@ {
            relay_args_from(args, after, RelayArgsView { cert: next_arg(args, i), ..acc })
        } else if a == "--key"@ {
            relay_args_from(args, after, RelayArgsView { key: next_arg(args, i), ..acc })
        } else if a == "--help"@ || a == "-h"@ {
            None
        } else {
            relay_args_from(args, i + 1, acc)
        }
    }
}

/// The argument after position `i`, if there is one.
fn next_arg_of(args: &Vec<String>, i: usize) -> (r: Option<String>)
    requires
        i < args.len(),
    ensures
        opt_string_view(r) == next_arg(args@.map_values(|s: String| s@), i as int),
{
    if i + 1 < args.len() {
        Some(args[i + 1].clone())
    } else {
        None
    }
}

/// Reads the relay's command line (`args[0]` being the program).
pub fn parse_relay_args(args: &Vec<String>) -> (r: RelayCommandLine)
    ensures
        ({
            let av = args@.map_values(|s: String| s@);
            let start = RelayArgsView { listen: None, password: None, cert: None, key: None };
            match relay_args_from(av, 1, start) {
                Some(v) => r matches RelayCommandLine::Run(a) && a@ == v,
                None => r is Help,
            }
        }),
{
    let ghost av = args@.map_values(|s: String| s@);
    let ghost start = RelayArgsView { listen: None, password: None, cert: None, key: None };
    let mut out = RelayArgs { listen: None, password: None, cert: None, key: None };
    proof {
        reveal_strlit("--listen");
        reveal_strlit("--password");
        reveal_strlit("--cert");
        reveal_strlit("--key");
        reveal_strlit("--help");
        reveal_strlit("-h");
    }
    let mut i: usize = 1;
    if args.len() == 0 {
        return RelayCommandLine::Run(out);
    }
    while i < args.len()
        invariant
            1 <= i <= args@.len(),
            av == args@.map_values(|s: String| s@),
            start == (RelayArgsView { listen: None, password: None, cert: None, key: None }),
            relay_args_from(av, 1, start) == relay_args_from(av, i as int, out@),
        decreases args@.len() - i,
    {
        let a = args[i].as_str();
        assert(av[i as int] == a@);
        if str_eq(a, "--listen") {
            out.listen = next_arg_of(args, i);
            i = if i + 1 < args.len() { i + 2 } else { args.len() };
        } else if str_eq(a, "--password") {
            out.password = next_arg_of(args, i);
            i = if i + 1 < args.len() { i + 2 } else { args.len() };
        } else if str_eq(a, "--cert") {
            out.cert = next_arg_of(args, i);
            i = if i + 1 < args.len() { i + 2 } else { args.len() };
        } else if str_eq(a, "--key") {
            out.key = next_arg_of(args, i);
            i = if i + 1 < args.len() { i + 2 } else { args.len() };
        } else if str_eq(a, "--help") || str_eq(a, "-h") {
            proof {
                reveal_strlit("--help");
                reveal_strlit("--cert");
                reveal_strlit("-h");
                reveal_strlit("--listen");
                reveal_strlit("--password");
                reveal_strlit("--key");
                assert("--help"@[2] != "--cert"@[2]);
                assert(a@ != "--cert"@);
            }
            return RelayCommandLine::Help;
        } else {
            i = i + 1;
        }
    }
    RelayCommandLine::Run(out)
}

/// The relay's password: the `RELAY_PASSWORD` environment variable, else
/// the `--password` option; the relay refuses to start without one.
pub fn relay_password(from_env: Option<String>, from_args: Option<String>) -> (r: Option<String>)
    ensures
        opt_string_view(r) == (match from_env {
            Some(p) => Some(p@),
            None => opt_string_view(from_args),
        }),
{
    match from_env {
        Some(p) => Some(p),
        None => from_args,
    }
}

/// Whether a request asks for a WebSocket upgrade: its `upgrade` header,
/// as text, is `websocket` in any case.
pub fn is_ws_upgrade(upgrade: Option<&str>) -> (r: bool)
    ensures
        r == (match upgrade {
            Some(u) => eq_ignore_ascii_case(u@, "websocket"@),
            None => false,
        }),
{
    match upgrade {
        None => false,
        Some(u) => {
            let a = chars_of(u);
            let b = chars_of("websocket");
            if a.len() != b.len() {
                return false;
            }
            let mut i: usize = 0;
            while i < a.len()
                invariant
                    i <= a@.len() == b@.len(),
                    upgrade == Some(u),
                    a@ == u@,
                    b@ == "websocket"@,
                    forall|j: int| 0 <= j < i ==> ascii_lower(#[trigger] a@[j]) == ascii_lower(b@[j]),
                decreases a@.len() - i,
            {
                if lower_ascii_char(a[i]) != lower_ascii_char(b[i]) {
                    assert(ascii_lower(u@[i as int]) != ascii_lower("websocket"@[i as int]));
                    assert(!eq_ignore_ascii_case(u@, "websocket"@));
                    return false;
                }
                i = i + 1;
            }
            true
        },
    }
}

/// What a request path the relay serves from its embedded frontend
/// names.
#[derive(Clone, Debug)]
pub enum StaticTarget {
    /// The root: the frontend's index page.
    Index,
    /// An asset, by its path without leading slashes, with the content type
    /// that path gives.
    Asset(String, String),
}

/// The static target of a request path: the path without its leading
/// slashes, with its content type, or the index page when nothing is left.
pub fn static_target(path: &str) -> (r: StaticTarget)
    ensures
        trim_start_char(path@, '/').len() == 0 ==> r is Index,
        trim_start_char(path@, '/').len() > 0 ==> (r matches StaticTarget::Asset(a, t) && a@
            == trim_start_char(path@, '/') && t@ == guessed_mime(a@)),
{
    let pv = chars_of(path);
    let clean = trim_start_chars(pv.as_slice(), '/');
    if clean.len() == 0 {
        StaticTarget::Index
    } else {
        let a = string_of(clean.as_slice());
        let t = guess_mime(a.as_str());
        StaticTarget::Asset(a, t)
    }
}

/// The ports the relay tries in turn when no listen address is given:
/// 24020 to 24045.
pub fn relay_port_candidates() -> (r: Vec<u16>)
    ensures
        r@.len() == 26,
        forall|i: int| 0 <= i < 26 ==> r@[i] == 24020 + i,
{
    let mut r: Vec<u16> = Vec::new();
    let mut p: u16 = 24020;
    while p <= 24045
        invariant
            24020 <= p <= 24046,
            r@.len() == p - 24020,
            forall|i: int| 0 <= i < r@.len() ==> r@[i] == 24020 + i,
        decreases 24046 - p,
    {
        r.push(p);
        p = p + 1;
    }
    r
}

} // verus!
