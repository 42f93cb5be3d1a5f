//! The saved worksite: what a snapshot of the open tabs and panes keeps,
//! when a saved state is accepted, and how each saved pane is restored.
use vstd::prelude::*;
use crate::clock::now_ms;
use crate::shell_profiles::{
    copy_strings, find_profile, opt_profile_view, profiles_view, resolve_profile, strings_view,
    ShellProfile,
};
use crate::wire::opt_string_view;
use crate::text::str_eq;

verus! {

/// A JSON value (`serde_json::Value`), carried through unread: the layout
/// tree of a tab.
#[verifier::external_type_specification]
#[verifier::external_body]
pub struct ExJsonValue(serde_json::Value);

/// The version of the saved state this build writes and reads.
pub const STATE_VERSION: u32 = 1;

/// The user's settings for saving and restoring the worksite.
#[derive(Clone, Copy, Debug)]
pub struct RestoreConfig {
    pub enabled: bool,
    pub max_commands_per_pane: usize,
    pub max_output_tail_lines: usize,
    pub persist_output_tails: bool,
}

/// A saved tab.
#[derive(Debug)]
pub struct RestoredTab {
    pub tab_id: String,
    pub layout: serde_json::Value,
    pub active_pane_id: Option<String>,
    pub shell_profile_id: Option<String>,
    pub shell_profile_name: Option<String>,
    pub group_id: Option<String>,
    pub workspace_roots: Vec<String>,
}

/// A saved pane.
#[derive(Clone, Debug)]
pub struct RestoredPane {
    pub pane_id: String,
    pub tab_id: String,
    pub cwd: Option<String>,
    pub shell_profile_id: Option<String>,
    pub shell_profile_name: Option<String>,
    pub output_tail: Vec<String>,
    pub recent_commands: Vec<String>,
}

/// The saved worksite: its tabs and panes and the active pane.
#[derive(Debug)]
pub struct WorksiteState {
    pub version: u32,
    pub updated_at: u64,
    pub active_pane_id: Option<String>,
    pub tabs: Vec<RestoredTab>,
    pub panes: Vec<RestoredPane>,
}

/// The mathematical content of a saved tab.
pub struct RestoredTabView {
    pub tab_id: Seq<char>,
    pub layout: serde_json::Value,
    pub active_pane_id: Option<Seq<char>>,
    pub shell_profile_id: Option<Seq<char>>,
    pub shell_profile_name: Option<Seq<char>>,
    pub group_id: Option<Seq<char>>,
    pub workspace_roots: Seq<Seq<char>>,
}

impl View for RestoredTab {
    type V = RestoredTabView;

    open spec fn view(&self) -> RestoredTabView {
        RestoredTabView {
            tab_id: self.tab_id@,
            layout: self.layout,
            active_pane_id: opt_string_view(self.active_pane_id),
            shell_profile_id: opt_string_view(self.shell_profile_id),
            shell_profile_name: opt_string_view(self.shell_profile_name),
            group_id: opt_string_view(self.group_id),
            workspace_roots: strings_view(self.workspace_roots@),
        }
    }
}

/// The mathematical content of a saved pane.
pub struct RestoredPaneView {
    pub pane_id: Seq<char>,
    pub tab_id: Seq<char>,
    pub cwd: Option<Seq<char>>,
    pub shell_profile_id: Option<Seq<char>>,
    pub shell_profile_name: Option<Seq<char>>,
    pub output_tail: Seq<Seq<char>>,
    pub recent_commands: Seq<Seq<char>>,
}

impl View for RestoredPane {
    type V = RestoredPaneView;

    open spec fn view(&self) -> RestoredPaneView {
        RestoredPaneView {
            pane_id: self.pane_id@,
            tab_id: self.tab_id@,
            cwd: opt_string_view(self.cwd),
            shell_profile_id: opt_string_view(self.shell_profile_id),
            shell_profile_name: opt_string_view(self.shell_profile_name),
            output_tail: strings_view(self.output_tail@),
            recent_commands: strings_view(self.recent_commands@),
        }
    }
}

/// Saved tabs, seen through their views.
pub open spec fn tabs_view(v: Seq<RestoredTab>) -> Seq<RestoredTabView> {
    v.map_values(|t: RestoredTab| t@)
}

/// Saved panes, seen through their views.
pub open spec fn panes_view(v: Seq<RestoredPane>) -> Seq<RestoredPaneView> {
    v.map_values(|p: RestoredPane| p@)
}

/// A loaded state is used only when it has this build's version.
pub fn accept_loaded_state(state: WorksiteState) -> (r: Option<WorksiteState>)
    ensures
        state.version == STATE_VERSION ==> r == Some(state),
        state.version != STATE_VERSION ==> r is None,
{
    if state.version == STATE_VERSION {
        Some(state)
    } else {
        None
    }
}

/// How many output lines a snapshot keeps per pane: the configured number,
/// at least one.
pub fn output_tail_limit(config: &RestoreConfig) -> (r: usize)
    ensures
        r == (if config.max_output_tail_lines > 1 {
            config.max_output_tail_lines
        } else {
            1
        }),
{
    if config.max_output_tail_lines > 1 {
        config.max_output_tail_lines
    } else {
        1
    }
}

/// A copy of a JSON value (`serde_json::Value::clone`, derived): the copy
/// is the same value.
#[verifier::external_body]
pub(crate) fn clone_json(v: &serde_json::Value) -> (r: serde_json::Value)
    ensures
        r == *v,
{
    v.clone()
}

/// A copy of an optional string.
pub fn copy_opt(o: &Option<String>) -> (r: Option<String>)
    ensures
        opt_string_view(r) == opt_string_view(*o),
{
    match o {
        Some(s) => Some(s.clone()),
        None => None,
    }
}

/// What the session manager records for a tab beside its id.
#[derive(Debug)]
pub struct TabRecord {
    pub layout: Option<serde_json::Value>,
    pub active_pane_id: Option<String>,
    pub shell_profile_id: Option<String>,
    pub shell_profile_name: Option<String>,
    pub group_id: Option<String>,
    pub workspace_roots: Vec<String>,
}

/// The mathematical content of a tab record.
pub struct TabRecordView {
    pub layout: Option<serde_json::Value>,
    pub active_pane_id: Option<Seq<char>>,
    pub shell_profile_id: Option<Seq<char>>,
    pub shell_profile_name: Option<Seq<char>>,
    pub group_id: Option<Seq<char>>,
    pub workspace_roots: Seq<Seq<char>>,
}

impl View for TabRecord {
    type V = TabRecordView;

    open spec fn view(&self) -> TabRecordView {
        TabRecordView {
            layout: self.layout,
            active_pane_id: opt_string_view(self.active_pane_id),
            shell_profile_id: opt_string_view(self.shell_profile_id),
            shell_profile_name: opt_string_view(self.shell_profile_name),
            group_id: opt_string_view(self.group_id),
            workspace_roots: strings_view(self.workspace_roots@),
        }
    }
}

/// A tab as the session manager holds it: its id, its record, and the ids
/// of the panes at the leaves of its layout, in layout order.
#[derive(Debug)]
pub struct TabState {
    pub tab_id: String,
    pub record: TabRecord,
    pub leaf_ids: Vec<String>,
}

/// The mathematical content of a tab.
pub struct TabStateView {
    pub tab_id: Seq<char>,
    pub record: TabRecordView,
    pub leaf_ids: Seq<Seq<char>>,
}

impl View for TabState {
    type V = TabStateView;

    open spec fn view(&self) -> TabStateView {
        TabStateView {
            tab_id: self.tab_id@,
            record: self.record@,
            leaf_ids: strings_view(self.leaf_ids@),
        }
    }
}

/// A live terminal session as a snapshot reads it: its working directory,
/// its shell profile, its recent commands, the lines of its scrollback
/// and the text on its screen.
#[derive(Clone, Debug)]
pub struct PaneSession {
    pub pane_id: String,
    pub cwd: String,
    pub shell_profile_id: Option<String>,
    pub shell_profile_name: Option<String>,
    pub recent_commands: Vec<String>,
    pub scrollback: Vec<String>,
    pub screen_text: String,
}

/// The mathematical content of a session.
pub struct PaneSessionView {
    pub pane_id: Seq<char>,
    pub cwd: Seq<char>,
    pub shell_profile_id: Option<Seq<char>>,
    pub shell_profile_name: Option<Seq<char>>,
    pub recent_commands: Seq<Seq<char>>,
    pub scrollback: Seq<Seq<char>>,
    pub screen_text: Seq<char>,
}

impl View for PaneSession {
    type V = PaneSessionView;

    open spec fn view(&self) -> PaneSessionView {
        PaneSessionView {
            pane_id: self.pane_id@,
            cwd: self.cwd@,
            shell_profile_id: opt_string_view(self.shell_profile_id),
            shell_profile_name: opt_string_view(self.shell_profile_name),
            recent_commands: strings_view(self.recent_commands@),
            scrollback: strings_view(self.scrollback@),
            screen_text: self.screen_text@,
        }
    }
}

/// What the session manager holds: the tab ids in display order, the tabs
/// (looked up by id), the live sessions (looked up by pane id) and the
/// active pane.
#[derive(Debug)]
pub struct ManagerState {
    pub tab_order: Vec<String>,
    pub tabs: Vec<TabState>,
    pub sessions: Vec<PaneSession>,
    pub active_pane_id: Option<String>,
}

/// The mathematical content of the manager's state.
pub struct ManagerStateView {
    pub tab_order: Seq<Seq<char>>,
    pub tabs: Seq<TabStateView>,
    pub sessions: Seq<PaneSessionView>,
    pub active_pane_id: Option<Seq<char>>,
}

impl View for ManagerState {
    type V = ManagerStateView;

    open spec fn view(&self) -> ManagerStateView {
        ManagerStateView {
            tab_order: strings_view(self.tab_order@),
            tabs: self.tabs@.map_values(|t: TabState| t@),
            sessions: self.sessions@.map_values(|s: PaneSession| s@),
            active_pane_id: opt_string_view(self.active_pane_id),
        }
    }
}

/// The first tab at or after position `i` whose id is `id`.
pub open spec fn tab_from(tabs: Seq<TabStateView>, id: Seq<char>, i: int) -> Option<TabStateView>
    decreases tabs.len() - i,
{
    if i < 0 || i >= tabs.len() {
        None
    } else if tabs[i].tab_id == id {
        Some(tabs[i])
    } else {
        tab_from(tabs, id, i + 1)
    }
}

/// The first session at or after position `i` whose pane id is `id`.
pub open spec fn session_from(sessions: Seq<PaneSessionView>, id: Seq<char>, i: int) -> Option<
    PaneSessionView,
>
    decreases sessions.len() - i,
{
    if i < 0 || i >= sessions.len() {
        None
    } else if sessions[i].pane_id == id {
        Some(sessions[i])
    } else {
        session_from(sessions, id, i + 1)
    }
}

/// A tab is saved when it has a layout with at least one pane.
pub open spec fn is_saved_tab(t: TabStateView) -> bool {
    t.record.layout is Some && t.leaf_ids.len() > 0
}

/// The saved form of a tab.
pub open spec fn saved_tab(t: TabStateView) -> RestoredTabView {
    RestoredTabView {
        tab_id: t.tab_id,
        layout: t.record.layout->0,
        active_pane_id: t.record.active_pane_id,
        shell_profile_id: t.record.shell_profile_id,
        shell_profile_name: t.record.shell_profile_name,
        group_id: t.record.group_id,
        workspace_roots: t.record.workspace_roots,
    }
}

/// How many recent commands a snapshot keeps per pane: the configured
/// number, at least one.
pub open spec fn command_limit(config: RestoreConfig) -> nat {
    if config.max_commands_per_pane > 1 {
        config.max_commands_per_pane as nat
    } else {
        1
    }
}

/// How many scrollback lines a snapshot keeps per pane: the configured
/// number, at least one.
pub open spec fn output_limit(config: RestoreConfig) -> nat {
    if config.max_output_tail_lines > 1 {
        config.max_output_tail_lines as nat
    } else {
        1
    }
}

/// The last `max` of `cmds` (all of them when there are no more).
pub open spec fn latest(cmds: Seq<Seq<char>>, max: nat) -> Seq<Seq<char>> {
    if cmds.len() > max {
        cmds.subrange(cmds.len() - max, cmds.len() as int)
    } else {
        cmds
    }
}

/// The saved form of pane `pane_id` of tab `t`, whose live session is `s`.
pub open spec fn saved_pane(
    t: TabStateView,
    pane_id: Seq<char>,
    s: Option<PaneSessionView>,
    config: RestoreConfig,
) -> RestoredPaneView {
    RestoredPaneView {
        pane_id: pane_id,
        tab_id: t.tab_id,
        cwd: match s {
            Some(x) => Some(x.cwd),
            None => None,
        },
        shell_profile_id: match s {
            Some(x) => match x.shell_profile_id {
                Some(p) => Some(p),
                None => t.record.shell_profile_id,
            },
            None => t.record.shell_profile_id,
        },
        shell_profile_name: match s {
            Some(x) => match x.shell_profile_name {
                Some(p) => Some(p),
                None => t.record.shell_profile_name,
            },
            None => t.record.shell_profile_name,
        },
        output_tail: if config.persist_output_tails {
            match s {
                Some(x) => latest(x.scrollback, output_limit(config)).push(x.screen_text),
                None => Seq::empty(),
            }
        } else {
            Seq::empty()
        },
        recent_commands: match s {
            Some(x) => latest(x.recent_commands, command_limit(config)),
            None => Seq::empty(),
        },
    }
}

/// The saved panes of tab `t`: one per leaf, in layout order.
pub open spec fn saved_panes_of(
    t: TabStateView,
    sessions: Seq<PaneSessionView>,
    config: RestoreConfig,
) -> Seq<RestoredPaneView> {
    Seq::new(
        t.leaf_ids.len(),
        |j: int| saved_pane(t, t.leaf_ids[j], session_from(sessions, t.leaf_ids[j], 0), config),
    )
}

/// The tabs saved from the first `k` tab ids of the display order.
pub open spec fn saved_tabs(m: ManagerStateView, k: int) -> Seq<RestoredTabView>
    decreases k,
{
    if k <= 0 {
        Seq::empty()
    } else {
        let prev = saved_tabs(m, k - 1);
        match tab_from(m.tabs, m.tab_order[k - 1], 0) {
            Some(t) => if is_saved_tab(t) {
                prev.push(saved_tab(t))
            } else {
                prev
            },
            None => prev,
        }
    }
}

/// The panes saved from the first `k` tab ids of the display order.
pub open spec fn saved_panes(m: ManagerStateView, config: RestoreConfig, k: int) -> Seq<
    RestoredPaneView,
>
    decreases k,
{
    if k <= 0 {
        Seq::empty()
    } else {
        let prev = saved_panes(m, config, k - 1);
        match tab_from(m.tabs, m.tab_order[k - 1], 0) {
            Some(t) => if is_saved_tab(t) {
                prev + saved_panes_of(t, m.sessions, config)
            } else {
                prev
            },
            None => prev,
        }
    }
}

/// The position of the first tab whose id is `id`.
pub fn find_tab(tabs: &Vec<TabState>, id: &str) -> (r: Option<usize>)
    ensures
        match r {
            Some(i) => i < tabs@.len() && tab_from(tabs@.map_values(|t: TabState| t@), id@, 0)
                == Some(tabs@[i as int]@),
            None => tab_from(tabs@.map_values(|t: TabState| t@), id@, 0) is None,
        },
{
    let ghost v = tabs@.map_values(|t: TabState| t@);
    let mut i: usize = 0;
    while i < tabs.len()
        invariant
            i <= tabs@.len() == v.len(),
            v == tabs@.map_values(|t: TabState| t@),
            tab_from(v, id@, 0) == tab_from(v, id@, i as int),
        decreases tabs@.len() - i,
    {
        if str_eq(tabs[i].tab_id.as_str(), id) {
            return Some(i);
        }
        i = i + 1;
    }
    None
}

/// The position of the first session whose pane id is `id`.
pub fn find_session(sessions: &Vec<PaneSession>, id: &str) -> (r: Option<usize>)
    ensures
        match r {
            Some(i) => i < sessions@.len() && session_from(
                sessions@.map_values(|s: PaneSession| s@),
                id@,
                0,
            ) == Some(sessions@[i as int]@),
            None => session_from(sessions@.map_values(|s: PaneSession| s@), id@, 0) is None,
        },
{
    let ghost v = sessions@.map_values(|s: PaneSession| s@);
    let mut i: usize = 0;
    while i < sessions.len()
        invariant
            i <= sessions@.len() == v.len(),
            v == sessions@.map_values(|s: PaneSession| s@),
            session_from(v, id@, 0) == session_from(v, id@, i as int),
        decreases sessions@.len() - i,
    {
        if str_eq(sessions[i].pane_id.as_str(), id) {
            return Some(i);
        }
        i = i + 1;
    }
    None
}

/// The last `max` of `cmds`, in order.
fn latest_commands(cmds: &Vec<String>, max: usize) -> (r: Vec<String>)
    ensures
        strings_view(r@) == latest(strings_view(cmds@), max as nat),
{
    let n = cmds.len();
    let start: usize = if n > max {
        n - max
    } else {
        0
    };
    let mut r: Vec<String> = Vec::new();
    let mut i: usize = start;
    while i < n
        invariant
            start <= i <= n == cmds@.len(),
            start == (if n > max { n - max } else { 0 }),
            r@.len() == i - start,
            forall|j: int| 0 <= j < r@.len() ==> #[trigger] r@[j]@ == cmds@[start + j]@,
        decreases n - i,
    {
        r.push(cmds[i].clone());
        i = i + 1;
    }
    assert(strings_view(r@) =~= latest(strings_view(cmds@), max as nat));
    r
}

/// The saved form of pane `pane_id` of tab `t`, whose live session is `s`.
fn save_pane(t: &TabState, pane_id: &String, s: Option<&PaneSession>, config: &RestoreConfig) -> (r:
    RestoredPane)
    ensures
        r@ == saved_pane(
            t@,
            pane_id@,
            match s {
                Some(x) => Some(x@),
                None => None,
            },
            *config,
        ),
{
    let max_commands = if config.max_commands_per_pane > 1 {
        config.max_commands_per_pane
    } else {
        1
    };
    let cwd = match s {
        Some(x) => Some(x.cwd.clone()),
        None => None,
    };
    let shell_profile_id = match s {
        Some(x) => match &x.shell_profile_id {
            Some(p) => Some(p.clone()),
            None => copy_opt(&t.record.shell_profile_id),
        },
        None => copy_opt(&t.record.shell_profile_id),
    };
    let shell_profile_name = match s {
        Some(x) => match &x.shell_profile_name {
            Some(p) => Some(p.clone()),
            None => copy_opt(&t.record.shell_profile_name),
        },
        None => copy_opt(&t.record.shell_profile_name),
    };
    let output_tail = if config.persist_output_tails {
        match s {
            Some(x) => {
                let mut lines = latest_commands(&x.scrollback, output_tail_limit(config));
                let ghost kept = strings_view(lines@);
                lines.push(x.screen_text.clone());
                proof {
                    assert(strings_view(lines@) =~= kept.push(x.screen_text@));
                }
                lines
            },
            None => Vec::new(),
        }
    } else {
        Vec::new()
    };
    let recent_commands = match s {
        Some(x) => latest_commands(&x.recent_commands, max_commands),
        None => Vec::new(),
    };
    let r = RestoredPane {
        pane_id: pane_id.clone(),
        tab_id: t.tab_id.clone(),
        cwd,
        shell_profile_id,
        shell_profile_name,
        output_tail,
        recent_commands,
    };
    proof {
        assert(strings_view(Seq::<String>::empty()) =~= Seq::<Seq<char>>::empty());
    }
    r
}

/// The saved form of a tab that has a layout.
fn save_tab(t: &TabState, layout: &serde_json::Value) -> (r: RestoredTab)
    requires
        t.record.layout == Some(*layout),
    ensures
        r@ == saved_tab(t@),
{
    RestoredTab {
        tab_id: t.tab_id.clone(),
        layout: clone_json(layout),
        active_pane_id: copy_opt(&t.record.active_pane_id),
        shell_profile_id: copy_opt(&t.record.shell_profile_id),
        shell_profile_name: copy_opt(&t.record.shell_profile_name),
        group_id: copy_opt(&t.record.group_id),
        workspace_roots: copy_strings(&t.record.workspace_roots),
    }
}

/// A snapshot of the worksite taken at `now` (milliseconds since the
/// epoch): every tab of the display order that has a layout with panes,
/// and for each of its panes, in layout order, what its live session
/// holds.
pub fn snapshot_at(manager: &ManagerState, config: &RestoreConfig, now: u64) -> (r: WorksiteState)
    ensures
        r.version == STATE_VERSION,
        r.updated_at == now,
        opt_string_view(r.active_pane_id) == manager@.active_pane_id,
        tabs_view(r.tabs@) == saved_tabs(manager@, manager@.tab_order.len() as int),
        panes_view(r.panes@) == saved_panes(manager@, *config, manager@.tab_order.len() as int),
{
    let ghost m = manager@;
    let mut tabs: Vec<RestoredTab> = Vec::new();
    let mut panes: Vec<RestoredPane> = Vec::new();
    let mut k: usize = 0;
    while k < manager.tab_order.len()
        invariant
            m == manager@,
            k <= manager.tab_order@.len() == m.tab_order.len(),
            tabs_view(tabs@) == saved_tabs(m, k as int),
            panes_view(panes@) == saved_panes(m, *config, k as int),
        decreases manager.tab_order@.len() - k,
    {
        let ghost tabs_before = tabs@;
        let ghost panes_before = panes@;
        let id = &manager.tab_order[k];
        assert(m.tab_order[k as int] == id@);
        match find_tab(&manager.tabs, id.as_str()) {
            Some(i) => {
                let t = &manager.tabs[i];
                if let (Some(layout), true) = (&t.record.layout, t.leaf_ids.len() > 0) {
                    tabs.push(save_tab(t, layout));
                    assert(tabs_view(tabs@) =~= tabs_view(tabs_before).push(saved_tab(t@)));
                    let ghost sp = saved_panes_of(t@, m.sessions, *config);
                    let mut j: usize = 0;
                    while j < t.leaf_ids.len()
                        invariant
                            m == manager@,
                            t@ == m.tabs[i as int],
                            is_saved_tab(t@),
                            sp == saved_panes_of(t@, m.sessions, *config),
                            j <= t.leaf_ids@.len(),
                            panes_view(panes@) == panes_view(panes_before) + sp.subrange(
                                0,
                                j as int,
                            ),
                        decreases t.leaf_ids@.len() - j,
                    {
                        let ghost panes_mid = panes@;
                        let pane_id = &t.leaf_ids[j];
                        let s = match find_session(&manager.sessions, pane_id.as_str()) {
                            Some(si) => Some(&manager.sessions[si]),
                            None => None,
                        };
                        panes.push(save_pane(t, pane_id, s, config));
                        assert(panes_view(panes@) =~= panes_view(panes_mid).push(sp[j as int]));
                        assert(sp.subrange(0, j + 1) =~= sp.subrange(0, j as int).push(
                            sp[j as int],
                        ));
                        j = j + 1;
                    }
                    assert(sp.subrange(0, t.leaf_ids@.len() as int) =~= sp);
                }
            },
            None => {},
        }
        k = k + 1;
    }
    WorksiteState {
        version: STATE_VERSION,
        updated_at: now,
        active_pane_id: copy_opt(&manager.active_pane_id),
        tabs,
        panes,
    }
}

/// A snapshot of the worksite taken now: as `snapshot_at`, stamped with the
/// current time.
pub fn snapshot(manager: &ManagerState, config: &RestoreConfig) -> (r: WorksiteState)
    ensures
        r.version == STATE_VERSION,
        opt_string_view(r.active_pane_id) == manager@.active_pane_id,
        tabs_view(r.tabs@) == saved_tabs(manager@, manager@.tab_order.len() as int),
        panes_view(r.panes@) == saved_panes(manager@, *config, manager@.tab_order.len() as int),
{
    snapshot_at(manager, config, now_ms())
}

/// Whether a loaded state is restored: only when restoring is enabled and
/// the state has at least one tab and one pane.
pub fn should_restore(enabled: bool, state: Option<WorksiteState>) -> (r: Option<WorksiteState>)
    ensures
        r is Some <==> (enabled && state is Some && state->0.tabs@.len() > 0
            && state->0.panes@.len() > 0),
        r is Some ==> r == state,
{
    if !enabled {
        return None;
    }
    match state {
        Some(s) => if s.tabs.len() > 0 && s.panes.len() > 0 {
            Some(s)
        } else {
            None
        },
        None => None,
    }
}

/// A terminal session to start for a saved pane.
#[derive(Debug)]
pub struct PaneToCreate {
    pub pane_id: String,
    pub cwd: Option<String>,
    pub shell_profile: Option<ShellProfile>,
    pub recent_commands: Vec<String>,
}

/// How a saved pane is brought back: nothing when its session already
/// runs; otherwise a session in its directory, with the profile found for
/// its saved profile id, that remembers its recent commands.
pub fn restore_pane(pane: &RestoredPane, session_exists: bool, profiles: &Vec<ShellProfile>) -> (r:
    Option<PaneToCreate>)
    ensures
        r is Some <==> !session_exists,
        r matches Some(c) ==> {
            &&& c.pane_id@ == pane.pane_id@
            &&& opt_string_view(c.cwd) == opt_string_view(pane.cwd)
            &&& opt_profile_view(c.shell_profile) == resolve_profile(
                profiles_view(profiles@),
                opt_string_view(pane.shell_profile_id),
            )
            &&& strings_view(c.recent_commands@) == strings_view(pane.recent_commands@)
        },
{
    if session_exists {
        return None;
    }
    let shell_profile = match &pane.shell_profile_id {
        Some(id) => find_profile(profiles, Some(id.as_str())),
        None => find_profile(profiles, None),
    };
    Some(
        PaneToCreate {
            pane_id: pane.pane_id.clone(),
            cwd: copy_opt(&pane.cwd),
            shell_profile,
            recent_commands: copy_strings(&pane.recent_commands),
        },
    )
}

/// The record a restored tab gets back.
pub open spec fn restored_record(t: RestoredTabView) -> TabRecordView {
    TabRecordView {
        layout: Some(t.layout),
        active_pane_id: t.active_pane_id,
        shell_profile_id: t.shell_profile_id,
        shell_profile_name: t.shell_profile_name,
        group_id: t.group_id,
        workspace_roots: t.workspace_roots,
    }
}

/// The id and record a saved tab is put back under.
pub fn restore_tab(tab: RestoredTab) -> (r: (String, TabRecord))
    ensures
        r.0@ == tab@.tab_id,
        r.1@ == restored_record(tab@),
{
    (
        tab.tab_id,
        TabRecord {
            layout: Some(tab.layout),
            active_pane_id: tab.active_pane_id,
            shell_profile_id: tab.shell_profile_id,
            shell_profile_name: tab.shell_profile_name,
            group_id: tab.group_id,
            workspace_roots: tab.workspace_roots,
        },
    )
}

/// Restoring a saved tab gives back the record the tab had when it was
/// saved.
pub proof fn law_restored_tab_keeps_its_record(t: TabStateView)
    requires
        is_saved_tab(t),
    ensures
        restored_record(saved_tab(t)) == t.record,
        saved_tab(t).tab_id == t.tab_id,
{
}

/// Whether one of the saved tabs `ts` has the id `id`.
pub open spec fn names_tab(ts: Seq<RestoredTabView>, id: Seq<char>) -> bool {
    exists|q: int| 0 <= q < ts.len() && #[trigger] ts[q].tab_id == id
}

/// Every saved pane belongs to a saved tab.
pub proof fn law_saved_panes_belong_to_saved_tabs(m: ManagerStateView, config: RestoreConfig, k: int)
    ensures
        forall|p: int|
            0 <= p < saved_panes(m, config, k).len() ==> names_tab(
                saved_tabs(m, k),
                #[trigger] saved_panes(m, config, k)[p].tab_id,
            ),
    decreases k,
{
    if k > 0 {
        law_saved_panes_belong_to_saved_tabs(m, config, k - 1);
        let prev_t = saved_tabs(m, k - 1);
        let prev_p = saved_panes(m, config, k - 1);
        let ts = saved_tabs(m, k);
        let ps = saved_panes(m, config, k);
        assert forall|p: int| 0 <= p < ps.len() implies names_tab(ts, #[trigger] ps[p].tab_id) by {
            match tab_from(m.tabs, m.tab_order[k - 1], 0) {
                Some(t) => {
                    if is_saved_tab(t) && p >= prev_p.len() {
                        assert(ps[p] == saved_panes_of(t, m.sessions, config)[p - prev_p.len()]);
                        assert(ts[prev_t.len() as int].tab_id == ps[p].tab_id);
                    } else {
                        assert(ps[p] == prev_p[p]);
                        assert(names_tab(prev_t, prev_p[p].tab_id));
                        let q = choose|q: int|
                            0 <= q < prev_t.len() && #[trigger] prev_t[q].tab_id == prev_p[p].tab_id;
                        assert(ts[q] == prev_t[q]);
                    }
                },
                None => {
                    assert(names_tab(prev_t, prev_p[p].tab_id));
                },
            }
        }
    }
}

/// A snapshot keeps, for each pane, the latest of its session's commands:
/// at most the configured number (at least one), and the newest last.
pub proof fn law_saved_commands_are_the_latest(cmds: Seq<Seq<char>>, config: RestoreConfig)
    ensures
        latest(cmds, command_limit(config)).len() <= command_limit(config),
        latest(cmds, command_limit(config)).len() == cmds.len() || latest(
            cmds,
            command_limit(config),
        ).len() == command_limit(config),
        latest(cmds, command_limit(config)) == cmds.subrange(
            cmds.len() - latest(cmds, command_limit(config)).len(),
            cmds.len() as int,
        ),
{
    assert(cmds.subrange(0, cmds.len() as int) =~= cmds);
}

/// A pane saved while its session ran is restored where that session was:
/// the saved pane keeps the session's directory and its latest commands,
/// which `restore_pane` hands to the new session unchanged.
pub proof fn law_saved_pane_keeps_its_session(
    t: TabStateView,
    pane_id: Seq<char>,
    s: PaneSessionView,
    config: RestoreConfig,
)
    ensures
        saved_pane(t, pane_id, Some(s), config).pane_id == pane_id,
        saved_pane(t, pane_id, Some(s), config).cwd == Some(s.cwd),
        saved_pane(t, pane_id, Some(s), config).recent_commands == latest(
            s.recent_commands,
            command_limit(config),
        ),
        s.shell_profile_id is Some ==> saved_pane(t, pane_id, Some(s), config).shell_profile_id
            == s.shell_profile_id,
{
}

/// What is saved of the worksite after a change: a snapshot taken now
/// when restoring is enabled, nothing otherwise.
pub fn save_state(manager: &ManagerState, config: &RestoreConfig) -> (r: Option<WorksiteState>)
    ensures
        r is Some <==> config.enabled,
        r matches Some(st) ==> {
            &&& st.version == STATE_VERSION
            &&& opt_string_view(st.active_pane_id) == manager@.active_pane_id
            &&& tabs_view(st.tabs@) == saved_tabs(manager@, manager@.tab_order.len() as int)
            &&& panes_view(st.panes@) == saved_panes(
                manager@,
                *config,
                manager@.tab_order.len() as int,
            )
        },
{
    if config.enabled {
        Some(snapshot(manager, config))
    } else {
        None
    }
}

} // verus!
