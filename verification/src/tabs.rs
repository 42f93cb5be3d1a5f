//! Tabs and panes: what a request to open, split, close, activate or
//! rearrange them is answered, and what it changes in the manager's state.
use vstd::prelude::*;
use crate::restore_state::{
    clone_json, copy_opt, find_session, find_tab, restore_tab, restored_record, session_from,
    tab_from, ManagerState, ManagerStateView, PaneSession, PaneSessionView, PaneToCreate,
    RestoredTab, RestoredTabView, TabRecord, TabRecordView, TabState, TabStateView,
};
use crate::shell_profiles::{
    copy_strings, find_profile, first_default, law_known_profile_is_found,
    law_unknown_profile_falls_back_to_default, opt_profile_view, profiles_view,
    resolve_profile, strings_view, ShellProfile, ShellProfileView,
};
use crate::ids::new_uuid;
use crate::text::str_eq;
use crate::wire::opt_string_view;

verus! {

/// Whether `path` names an existing directory (`Path::is_dir`). The answer
/// depends on the file system at the moment of the call, so nothing is
/// stated of it.
#[verifier::external_body]
fn is_dir(path: &str) -> (r: bool) {
    std::path::Path::new(path).is_dir()
}

/// The first of `roots`, from position `i` on, that `marks` marks (the
/// marks beyond the roots, or the roots beyond the marks, count as none).
pub open spec fn first_marked(roots: Seq<Seq<char>>, marks: Seq<bool>, i: int) -> Option<Seq<char>>
    decreases roots.len() - i,
{
    if i < 0 || i >= roots.len() || i >= marks.len() {
        None
    } else if marks[i] {
        Some(roots[i])
    } else {
        first_marked(roots, marks, i + 1)
    }
}

/// A marked root is one of the roots.
pub proof fn lemma_first_marked_is_a_root(roots: Seq<Seq<char>>, marks: Seq<bool>, i: int)
    ensures
        first_marked(roots, marks, i) matches Some(x) ==> roots.contains(x),
    decreases roots.len() - i,
{
    if 0 <= i < roots.len() && i < marks.len() {
        if marks[i] {
            assert(roots[i] == roots[i]);
        } else {
            lemma_first_marked_is_a_root(roots, marks, i + 1);
        }
    }
}

/// The first of `roots` that is an existing directory, given for each
/// root whether it is one.
pub fn first_existing_root(roots: &Vec<String>, is_dir: &Vec<bool>) -> (r: Option<String>)
    ensures
        opt_string_view(r) == first_marked(strings_view(roots@), is_dir@, 0),
{
    let ghost rv = strings_view(roots@);
    let mut i: usize = 0;
    while i < roots.len() && i < is_dir.len()
        invariant
            i <= roots@.len(),
            rv == strings_view(roots@),
            first_marked(rv, is_dir@, 0) == first_marked(rv, is_dir@, i as int),
        decreases roots@.len() - i,
    {
        if is_dir[i] {
            assert(rv[i as int] == roots@[i as int]@);
            return Some(roots[i].clone());
        }
        i = i + 1;
    }
    None
}

/// The directory a new terminal starts in: the first of `roots` that is an
/// existing directory, or none. What exists is the file system's answer
/// at the moment of the call; whatever it is, the result is the first root
/// it marks as a directory, so one of `roots`, and none when `roots` is
/// empty.
pub fn cwd_from_workspace_roots(roots: &Vec<String>) -> (r: Option<String>)
    ensures
        exists|marks: Seq<bool>|
            marks.len() == roots@.len() && opt_string_view(r) == #[trigger] first_marked(
                strings_view(roots@),
                marks,
                0,
            ),
        r matches Some(p) ==> strings_view(roots@).contains(p@),
        roots@.len() == 0 ==> r is None,
{
    let mut marks: Vec<bool> = Vec::new();
    let mut i: usize = 0;
    while i < roots.len()
        invariant
            i <= roots@.len(),
            marks@.len() == i,
        decreases roots@.len() - i,
    {
        marks.push(is_dir(roots[i].as_str()));
        i = i + 1;
    }
    let r = first_existing_root(roots, &marks);
    proof {
        lemma_first_marked_is_a_root(strings_view(roots@), marks@, 0);
    }
    r
}

/// Why a request on a tab or pane is refused.
#[derive(Clone, Copy, Debug, PartialEq, Eq, Structural)]
pub enum TabError {
    /// No tab has the requested id.
    TabNotFound,
    /// The tab has no layout.
    NoLayout,
    /// The pane is not a leaf of the tab's layout.
    PaneNotFound,
    /// The new pane could not be put into the tab's layout.
    LayoutNotUpdated,
}

/// The message a refusal is answered with.
pub open spec fn tab_error_message(e: TabError) -> Seq<char> {
    match e {
        TabError::TabNotFound => "tab not found"@,
        TabError::NoLayout => "tab has no layout"@,
        TabError::PaneNotFound => "pane not found in tab"@,
        TabError::LayoutNotUpdated => "failed to update layout"@,
    }
}

impl TabError {
    /// The HTTP status a refusal is answered with.
    pub fn status(&self) -> (r: u16)
        ensures
            r == (match *self {
                TabError::NoLayout => 500u16,
                TabError::LayoutNotUpdated => 500u16,
                _ => 404u16,
            }),
    {
        match self {
            TabError::NoLayout => 500,
            TabError::LayoutNotUpdated => 500,
            _ => 404,
        }
    }

    /// The message a refusal is answered with.
    pub fn message(&self) -> (r: &'static str)
        ensures
            r@ == tab_error_message(*self),
    {
        match self {
            TabError::TabNotFound => "tab not found",
            TabError::NoLayout => "tab has no layout",
            TabError::PaneNotFound => "pane not found in tab",
            TabError::LayoutNotUpdated => "failed to update layout",
        }
    }
}

/// Whether `id` is one of `ids`.
fn contains_id(ids: &Vec<String>, id: &str) -> (r: bool)
    ensures
        r == strings_view(ids@).contains(id@),
{
    let mut i: usize = 0;
    while i < ids.len()
        invariant
            i <= ids@.len(),
            forall|j: int| 0 <= j < i ==> ids@[j]@ != id@,
        decreases ids@.len() - i,
    {
        if str_eq(ids[i].as_str(), id) {
            assert(strings_view(ids@)[i as int] == id@);
            return true;
        }
        i = i + 1;
    }
    proof {
        if strings_view(ids@).contains(id@) {
            let j = choose|j: int| 0 <= j < ids@.len() && strings_view(ids@)[j] == id@;
            assert(ids@[j]@ == id@);
        }
    }
    false
}

/// The tab named `tab_id`, as the manager's lookup finds it.
pub open spec fn tab_named(m: Seq<TabStateView>, tab_id: Seq<char>) -> Option<TabStateView> {
    tab_from(m, tab_id, 0)
}

/// Whether splitting or closing pane `pane_id` of tab `tab_id` is
/// accepted: the tab exists, has a layout, and the pane is one of its
/// leaves; otherwise the first of these that fails is the refusal.
pub open spec fn pane_acceptance(tabs: Seq<TabStateView>, tab_id: Seq<char>, pane_id: Seq<char>) -> Result<
    (),
    TabError,
> {
    match tab_named(tabs, tab_id) {
        None => Err(TabError::TabNotFound),
        Some(t) => if t.record.layout is None {
            Err(TabError::NoLayout)
        } else if !t.leaf_ids.contains(pane_id) {
            Err(TabError::PaneNotFound)
        } else {
            Ok(())
        },
    }
}

/// Where tab `tab_id` is, when pane `pane_id` of it may be split or
/// closed; the refusal otherwise.
fn locate_pane(m: &ManagerState, tab_id: &str, pane_id: &str) -> (r: Result<usize, TabError>)
    ensures
        match r {
            Ok(i) => i < m@.tabs.len() && tab_named(m@.tabs, tab_id@) == Some(m@.tabs[i as int])
                && pane_acceptance(m@.tabs, tab_id@, pane_id@) == Ok::<(), TabError>(()),
            Err(e) => pane_acceptance(m@.tabs, tab_id@, pane_id@) == Err::<(), TabError>(e),
        },
{
    match find_tab(&m.tabs, tab_id) {
        None => Err(TabError::TabNotFound),
        Some(i) => {
            let t = &m.tabs[i];
            assert(m@.tabs[i as int] == t@);
            if t.record.layout.is_none() {
                Err(TabError::NoLayout)
            } else if !contains_id(&t.leaf_ids, pane_id) {
                Err(TabError::PaneNotFound)
            } else {
                Ok(i)
            }
        },
    }
}

/// A request to open a new tab.
#[derive(Debug)]
pub struct CreateTabRequest {
    pub profile_id: Option<String>,
    pub group_id: Option<String>,
    pub workspace_roots: Vec<String>,
}

impl Default for CreateTabRequest {
    fn default() -> (r: CreateTabRequest)
        ensures
            r.profile_id is None,
            r.group_id is None,
            r.workspace_roots@.len() == 0,
    {
        CreateTabRequest { profile_id: None, group_id: None, workspace_roots: Vec::new() }
    }
}

/// What a new tab starts with: fresh ids for the tab and its first pane,
/// the shell profile of its terminal (and that profile's id and name, as
/// the tab records them), its group, its workspace roots, and the
/// directory its terminal starts in.
#[derive(Debug)]
pub struct NewTab {
    pub tab_id: String,
    pub pane_id: String,
    pub shell_profile: Option<ShellProfile>,
    pub shell_profile_id: Option<String>,
    pub shell_profile_name: Option<String>,
    pub group_id: Option<String>,
    pub workspace_roots: Vec<String>,
    pub cwd: Option<String>,
}

/// A new tab: fresh ids, the profile found for the requested id (else the
/// default one), the requested group and workspace roots, and a start
/// directory taken from those roots.
pub fn create_tab(req: &CreateTabRequest, profiles: &Vec<ShellProfile>) -> (r: NewTab)
    ensures
        r.tab_id@.len() == 36,
        r.pane_id@.len() == 36,
        opt_profile_view(r.shell_profile) == resolve_profile(
            profiles_view(profiles@),
            opt_string_view(req.profile_id),
        ),
        opt_string_view(r.shell_profile_id) == (match opt_profile_view(r.shell_profile) {
            Some(p) => Some(p.id),
            None => None,
        }),
        opt_string_view(r.shell_profile_name) == (match opt_profile_view(r.shell_profile) {
            Some(p) => Some(p.name),
            None => None,
        }),
        opt_string_view(r.group_id) == opt_string_view(req.group_id),
        strings_view(r.workspace_roots@) == strings_view(req.workspace_roots@),
        r.cwd matches Some(p) ==> strings_view(req.workspace_roots@).contains(p@),
        req.workspace_roots@.len() == 0 ==> r.cwd is None,
{
    let shell_profile = match &req.profile_id {
        Some(id) => find_profile(profiles, Some(id.as_str())),
        None => find_profile(profiles, None),
    };
    let shell_profile_id = match &shell_profile {
        Some(p) => Some(p.id.clone()),
        None => None,
    };
    let shell_profile_name = match &shell_profile {
        Some(p) => Some(p.name.clone()),
        None => None,
    };
    let workspace_roots = copy_strings(&req.workspace_roots);
    let cwd = cwd_from_workspace_roots(&workspace_roots);
    NewTab {
        tab_id: new_uuid(),
        pane_id: new_uuid(),
        shell_profile,
        shell_profile_id,
        shell_profile_name,
        group_id: copy_opt(&req.group_id),
        workspace_roots,
        cwd,
    }
}

/// The record a new tab is stored with: its layout, its only pane active,
/// and the profile, group and roots it was opened with.
pub open spec fn new_tab_record_view(tab: NewTab, layout: serde_json::Value) -> TabRecordView {
    TabRecordView {
        layout: Some(layout),
        active_pane_id: Some(tab.pane_id@),
        shell_profile_id: opt_string_view(tab.shell_profile_id),
        shell_profile_name: opt_string_view(tab.shell_profile_name),
        group_id: opt_string_view(tab.group_id),
        workspace_roots: strings_view(tab.workspace_roots@),
    }
}

/// The record a new tab is stored with (see `new_tab_record_view`).
pub fn new_tab_record(tab: &NewTab, layout: serde_json::Value) -> (r: TabRecord)
    ensures
        r@ == new_tab_record_view(*tab, layout),
{
    TabRecord {
        layout: Some(layout),
        active_pane_id: Some(tab.pane_id.clone()),
        shell_profile_id: copy_opt(&tab.shell_profile_id),
        shell_profile_name: copy_opt(&tab.shell_profile_name),
        group_id: copy_opt(&tab.group_id),
        workspace_roots: copy_strings(&tab.workspace_roots),
    }
}

/// The panes whose terminals end when tab `tab_id` closes: the leaves of
/// its layout, none when it has no layout or does not exist.
pub fn close_tab(m: &ManagerState, tab_id: &str) -> (r: Vec<String>)
    ensures
        strings_view(r@) == (match tab_named(m@.tabs, tab_id@) {
            Some(t) => if t.record.layout is Some {
                t.leaf_ids
            } else {
                Seq::empty()
            },
            None => Seq::empty(),
        }),
{
    match find_tab(&m.tabs, tab_id) {
        Some(i) => {
            assert(m@.tabs[i as int] == m.tabs@[i as int]@);
            if m.tabs[i].record.layout.is_some() {
                copy_strings(&m.tabs[i].leaf_ids)
            } else {
                let r: Vec<String> = Vec::new();
                assert(strings_view(r@) =~= Seq::<Seq<char>>::empty());
                r
            }
        },
        None => {
            let r: Vec<String> = Vec::new();
            assert(strings_view(r@) =~= Seq::<Seq<char>>::empty());
            r
        },
    }
}

/// `ss` without the sessions of the panes `ids`, taken in order.
pub open spec fn without_sessions(ss: Seq<PaneSessionView>, ids: Seq<Seq<char>>) -> Seq<
    PaneSessionView,
>
    decreases ids.len(),
{
    if ids.len() == 0 {
        ss
    } else {
        without_session(without_sessions(ss, ids.drop_last()), ids.last())
    }
}

/// The panes that closing tab `tab_id` ends: the leaves of its layout,
/// none when it has no layout or does not exist.
pub open spec fn closed_leaves(tabs: Seq<TabStateView>, tab_id: Seq<char>) -> Seq<Seq<char>> {
    match tab_named(tabs, tab_id) {
        Some(t) => if t.record.layout is Some {
            t.leaf_ids
        } else {
            Seq::empty()
        },
        None => Seq::empty(),
    }
}

/// Closes tab `tab_id`: the terminals of its leaves end (their sessions
/// leave the manager), the tab leaves the tabs and the display order, and
/// the ended panes are handed back. Closing a tab that does not exist
/// changes nothing.
pub fn apply_close_tab(m: &mut ManagerState, tab_id: &str) -> (r: Vec<String>)
    ensures
        strings_view(r@) == closed_leaves(old(m)@.tabs, tab_id@),
        final(m)@.sessions == without_sessions(old(m)@.sessions, strings_view(r@)),
        final(m)@.tabs == (match tab_pos(old(m)@.tabs, tab_id@, 0) {
            Some(k) => old(m)@.tabs.remove(k),
            None => old(m)@.tabs,
        }),
        final(m)@.tab_order == without_id(old(m)@.tab_order, tab_id@),
        final(m)@.active_pane_id == old(m)@.active_pane_id,
{
    let ghost old_m = m@;
    let leaves = close_tab(m, tab_id);
    let ghost lv = strings_view(leaves@);
    let mut i: usize = 0;
    while i < leaves.len()
        invariant
            i <= leaves@.len() == lv.len(),
            lv == strings_view(leaves@),
            m@.sessions == without_sessions(old_m.sessions, lv.take(i as int)),
            m@.tabs == old_m.tabs,
            m@.tab_order == old_m.tab_order,
            m@.active_pane_id == old_m.active_pane_id,
        decreases leaves@.len() - i,
    {
        assert(lv.take(i + 1).drop_last() =~= lv.take(i as int));
        assert(lv.take(i + 1).last() == leaves@[i as int]@);
        remove_session(&mut m.sessions, leaves[i].as_str());
        i = i + 1;
    }
    assert(lv.take(leaves@.len() as int) =~= lv);
    match tab_position(&m.tabs, tab_id) {
        Some(k) => {
            proof {
                lemma_tab_pos(m@.tabs, tab_id@, 0);
            }
            m.tabs.remove(k);
            assert(m@.tabs =~= old_m.tabs.remove(k as int));
        },
        None => {},
    }
    m.tab_order = drop_id(&m.tab_order, tab_id);
    leaves
}

/// A request to split a pane: the pane to split, the direction of the
/// split ("horizontal" or "vertical"), and the profile of the new pane.
#[derive(Debug)]
pub struct SplitPaneRequest {
    pub pane_id: String,
    pub direction: String,
    pub profile_id: Option<String>,
}

/// What the new pane of a split starts with: a fresh id, a directory and
/// a shell profile.
#[derive(Debug)]
pub struct SplitPlan {
    pub new_pane_id: String,
    pub cwd: Option<String>,
    pub shell_profile: Option<ShellProfile>,
}

/// The profile id a split asks for: the requested one, else that of the
/// session being split.
pub open spec fn split_profile_id(requested: Option<Seq<char>>, source: Option<PaneSessionView>) -> Option<
    Seq<char>,
> {
    match requested {
        Some(id) => Some(id),
        None => match source {
            Some(s) => s.shell_profile_id,
            None => None,
        },
    }
}

/// Splitting pane `req.pane_id` of tab `tab_id`: refused as `pane_acceptance`
/// says; otherwise the new pane starts in the directory of the pane being
/// split (when its session runs, else in one of the tab's workspace roots,
/// or none), with the requested profile, else that of the pane being
/// split, else the default one.
pub fn split_pane(
    m: &ManagerState,
    tab_id: &str,
    req: &SplitPaneRequest,
    profiles: &Vec<ShellProfile>,
) -> (r: Result<SplitPlan, TabError>)
    ensures
        r is Ok <==> pane_acceptance(m@.tabs, tab_id@, req.pane_id@) is Ok,
        r matches Err(e) ==> pane_acceptance(m@.tabs, tab_id@, req.pane_id@) == Err::<(), TabError>(e),
        r matches Ok(p) ==> {
            let source = session_from(m@.sessions, req.pane_id@, 0);
            let t = tab_named(m@.tabs, tab_id@)->0;
            &&& p.new_pane_id@.len() == 36
            &&& opt_profile_view(p.shell_profile) == resolve_profile(
                profiles_view(profiles@),
                split_profile_id(opt_string_view(req.profile_id), source),
            )
            &&& req.profile_id is None ==> (source matches Some(s) ==> (s.shell_profile_id matches Some(id)
                ==> ((exists|i: int| 0 <= i < profiles@.len() && #[trigger] profiles@[i].id@ == id)
                ==> (p.shell_profile matches Some(sp) && sp.id@ == id))))
            &&& source matches Some(s) ==> opt_string_view(p.cwd) == Some(s.cwd)
            &&& source is None ==> (p.cwd matches Some(c) ==> t.record.workspace_roots.contains(c@))
        },
{
    let i = match locate_pane(m, tab_id, req.pane_id.as_str()) {
        Ok(i) => i,
        Err(e) => {
            return Err(e);
        },
    };
    let t = &m.tabs[i];
    assert(m@.tabs[i as int] == t@);
    let source: Option<&PaneSession> = match find_session(&m.sessions, req.pane_id.as_str()) {
        Some(si) => Some(&m.sessions[si]),
        None => None,
    };
    let cwd = match source {
        Some(s) => Some(s.cwd.clone()),
        None => cwd_from_workspace_roots(&t.record.workspace_roots),
    };
    let shell_profile = match &req.profile_id {
        Some(id) => find_profile(profiles, Some(id.as_str())),
        None => match source {
            Some(s) => match &s.shell_profile_id {
                Some(id) => find_profile(profiles, Some(id.as_str())),
                None => find_profile(profiles, None),
            },
            None => find_profile(profiles, None),
        },
    };
    proof {
        let src = session_from(m@.sessions, req.pane_id@, 0);
        if req.profile_id is None && src is Some && src->0.shell_profile_id is Some {
            let id = src->0.shell_profile_id->0;
            if exists|i: int| 0 <= i < profiles@.len() && #[trigger] profiles@[i].id@ == id {
                let i = choose|i: int| 0 <= i < profiles@.len() && #[trigger] profiles@[i].id@ == id;
                assert(profiles_view(profiles@)[i].id == id);
                law_known_profile_is_found(profiles_view(profiles@), id, i);
            }
        }
    }
    Ok(SplitPlan { new_pane_id: new_uuid(), cwd, shell_profile })
}

/// The active pane of a tab after one of its panes closed: the one that was
/// active if it is still a leaf, else the first leaf, else none ("").
pub open spec fn active_after(active: Option<Seq<char>>, remaining: Seq<Seq<char>>) -> Seq<char> {
    match active {
        Some(a) => if remaining.contains(a) {
            a
        } else if remaining.len() > 0 {
            remaining[0]
        } else {
            Seq::empty()
        },
        None => if remaining.len() > 0 {
            remaining[0]
        } else {
            Seq::empty()
        },
    }
}

/// The active pane of a tab whose leaves are now `remaining`, that had
/// `active` active. It is always one of the remaining leaves, and empty
/// only when none remain.
pub fn active_after_close(active: &Option<String>, remaining: &Vec<String>) -> (r: String)
    ensures
        r@ == active_after(opt_string_view(*active), strings_view(remaining@)),
        remaining@.len() > 0 ==> strings_view(remaining@).contains(r@),
        remaining@.len() == 0 ==> r@.len() == 0,
{
    if let Some(a) = active {
        if contains_id(remaining, a.as_str()) {
            return a.clone();
        }
    }
    if remaining.len() > 0 {
        assert(strings_view(remaining@)[0] == remaining@[0]@);
        remaining[0].clone()
    } else {
        let r = String::new();
        r
    }
}

/// Activating pane `pane_id` of tab `tab_id`: refused when the tab does not
/// exist, or has no layout, or the pane is not one of its leaves.
pub open spec fn activation_acceptance(tabs: Seq<TabStateView>, tab_id: Seq<char>, pane_id: Seq<char>) -> Result<
    (),
    TabError,
> {
    match tab_named(tabs, tab_id) {
        None => Err(TabError::TabNotFound),
        Some(t) => if t.record.layout is Some && t.leaf_ids.contains(pane_id) {
            Ok(())
        } else {
            Err(TabError::PaneNotFound)
        },
    }
}

/// The tabs with tab `i`'s record replaced by `rec`.
pub open spec fn with_record(tabs: Seq<TabStateView>, i: int, rec: TabRecordView) -> Seq<
    TabStateView,
> {
    tabs.update(i, TabStateView { tab_id: tabs[i].tab_id, record: rec, leaf_ids: tabs[i].leaf_ids })
}

/// Makes pane `pane_id` of tab `tab_id` the tab's active pane and the
/// active pane of the whole worksite; nothing changes when it is refused.
pub fn activate_pane(m: &mut ManagerState, tab_id: &str, pane_id: &str) -> (r: Result<(), TabError>)
    ensures
        r == activation_acceptance(old(m)@.tabs, tab_id@, pane_id@),
        r is Err ==> final(m)@ == old(m)@,
        r is Ok ==> exists|i: int|
            0 <= i < old(m)@.tabs.len() && tab_named(old(m)@.tabs, tab_id@) == Some(
                #[trigger] old(m)@.tabs[i],
            ) && final(m)@.tabs == with_record(
                old(m)@.tabs,
                i,
                TabRecordView { active_pane_id: Some(pane_id@), ..old(m)@.tabs[i].record },
            ),
        r is Ok ==> final(m)@.active_pane_id == Some(pane_id@),
        final(m)@.tab_order == old(m)@.tab_order,
        final(m)@.sessions == old(m)@.sessions,
{
    let i = match find_tab(&m.tabs, tab_id) {
        None => {
            return Err(TabError::TabNotFound);
        },
        Some(i) => i,
    };
    assert(m@.tabs[i as int] == m.tabs@[i as int]@);
    if !(m.tabs[i].record.layout.is_some() && contains_id(&m.tabs[i].leaf_ids, pane_id)) {
        return Err(TabError::PaneNotFound);
    }
    let ghost old_tabs = m@.tabs;
    m.tabs[i].record.active_pane_id = Some(pane_id.to_string());
    m.active_pane_id = Some(pane_id.to_string());
    proof {
        let rec = TabRecordView { active_pane_id: Some(pane_id@), ..old_tabs[i as int].record };
        assert(m@.tabs =~= with_record(old_tabs, i as int, rec));
    }
    Ok(())
}

/// A request to replace a tab's layout and its active pane.
#[derive(Debug)]
pub struct UpdateLayoutRequest {
    pub layout: serde_json::Value,
    pub active_pane_id: String,
}

/// A request to change a tab's group (`Some(None)` takes it out of its
/// group) and its workspace roots; what is absent stays.
#[derive(Debug)]
pub struct UpdateTabMetaRequest {
    pub group_id: Option<Option<String>>,
    pub workspace_roots: Option<Vec<String>>,
}

/// Replaces the layout of tab `tab_id` by `req.layout`, whose leaves are
/// `leaf_ids`, and makes `req.active_pane_id` its active pane; refused,
/// changing nothing, when the tab does not exist.
pub fn update_layout(
    m: &mut ManagerState,
    tab_id: &str,
    req: UpdateLayoutRequest,
    leaf_ids: Vec<String>,
) -> (r: Result<(), TabError>)
    ensures
        r is Err <==> tab_named(old(m)@.tabs, tab_id@) is None,
        r matches Err(e) ==> e == TabError::TabNotFound && final(m)@ == old(m)@,
        r is Ok ==> exists|i: int|
            0 <= i < old(m)@.tabs.len() && tab_named(old(m)@.tabs, tab_id@) == Some(
                #[trigger] old(m)@.tabs[i],
            ) && final(m)@.tabs == old(m)@.tabs.update(
                i,
                TabStateView {
                    tab_id: old(m)@.tabs[i].tab_id,
                    record: TabRecordView {
                        layout: Some(req.layout),
                        active_pane_id: Some(req.active_pane_id@),
                        ..old(m)@.tabs[i].record
                    },
                    leaf_ids: strings_view(leaf_ids@),
                },
            ),
        final(m)@.tab_order == old(m)@.tab_order,
        final(m)@.sessions == old(m)@.sessions,
        final(m)@.active_pane_id == old(m)@.active_pane_id,
{
    let i = match find_tab(&m.tabs, tab_id) {
        None => {
            return Err(TabError::TabNotFound);
        },
        Some(i) => i,
    };
    assert(m@.tabs[i as int] == m.tabs@[i as int]@);
    let ghost old_tabs = m@.tabs;
    let UpdateLayoutRequest { layout, active_pane_id } = req;
    m.tabs[i].record.layout = Some(layout);
    m.tabs[i].record.active_pane_id = Some(active_pane_id);
    m.tabs[i].leaf_ids = leaf_ids;
    proof {
        let t = TabStateView {
            tab_id: old_tabs[i as int].tab_id,
            record: TabRecordView {
                layout: Some(req.layout),
                active_pane_id: Some(req.active_pane_id@),
                ..old_tabs[i as int].record
            },
            leaf_ids: strings_view(leaf_ids@),
        };
        assert(m@.tabs =~= old_tabs.update(i as int, t));
    }
    Ok(())
}

/// The record of a tab after a metadata change: the group and the
/// workspace roots the request carries replace the old ones.
pub open spec fn with_meta(rec: TabRecordView, req: UpdateTabMetaRequest) -> TabRecordView {
    TabRecordView {
        group_id: match req.group_id {
            Some(g) => opt_string_view(g),
            None => rec.group_id,
        },
        workspace_roots: match req.workspace_roots {
            Some(w) => strings_view(w@),
            None => rec.workspace_roots,
        },
        ..rec
    }
}

/// Changes the group and workspace roots of tab `tab_id` as `req` asks;
/// refused, changing nothing, when the tab does not exist.
pub fn update_tab_meta(m: &mut ManagerState, tab_id: &str, req: UpdateTabMetaRequest) -> (r: Result<
    (),
    TabError,
>)
    ensures
        r is Err <==> tab_named(old(m)@.tabs, tab_id@) is None,
        r matches Err(e) ==> e == TabError::TabNotFound && final(m)@ == old(m)@,
        r is Ok ==> exists|i: int|
            0 <= i < old(m)@.tabs.len() && tab_named(old(m)@.tabs, tab_id@) == Some(
                #[trigger] old(m)@.tabs[i],
            ) && final(m)@.tabs == with_record(
                old(m)@.tabs,
                i,
                with_meta(old(m)@.tabs[i].record, req),
            ),
        final(m)@.tab_order == old(m)@.tab_order,
        final(m)@.sessions == old(m)@.sessions,
        final(m)@.active_pane_id == old(m)@.active_pane_id,
{
    let i = match find_tab(&m.tabs, tab_id) {
        None => {
            return Err(TabError::TabNotFound);
        },
        Some(i) => i,
    };
    assert(m@.tabs[i as int] == m.tabs@[i as int]@);
    let ghost old_tabs = m@.tabs;
    let ghost old_req = req;
    let UpdateTabMetaRequest { group_id, workspace_roots } = req;
    if let Some(g) = group_id {
        m.tabs[i].record.group_id = g;
    }
    if let Some(w) = workspace_roots {
        m.tabs[i].record.workspace_roots = w;
    }
    proof {
        assert(m@.tabs =~= with_record(
            old_tabs,
            i as int,
            with_meta(old_tabs[i as int].record, old_req),
        ));
    }
    Ok(())
}

/// A pane is split, closed or activated only when it is a leaf of an
/// existing tab's layout.
pub proof fn law_only_leaves_are_acted_on(tabs: Seq<TabStateView>, tab_id: Seq<char>, pane_id: Seq<char>)
    ensures
        pane_acceptance(tabs, tab_id, pane_id) is Ok ==> tab_named(tabs, tab_id) is Some
            && tab_named(tabs, tab_id)->0.record.layout is Some && tab_named(
            tabs,
            tab_id,
        )->0.leaf_ids.contains(pane_id),
        activation_acceptance(tabs, tab_id, pane_id) is Ok ==> tab_named(tabs, tab_id) is Some
            && tab_named(tabs, tab_id)->0.leaf_ids.contains(pane_id),
        activation_acceptance(tabs, tab_id, pane_id) is Ok <==> pane_acceptance(tabs, tab_id, pane_id) is Ok,
{
}

/// The position of the first tab at or after `i` whose id is `id`.
pub open spec fn tab_pos(ts: Seq<TabStateView>, id: Seq<char>, i: int) -> Option<int>
    decreases ts.len() - i,
{
    if i < 0 || i >= ts.len() {
        None
    } else if ts[i].tab_id == id {
        Some(i)
    } else {
        tab_pos(ts, id, i + 1)
    }
}

/// The position found is that of the tab the lookup finds.
pub proof fn lemma_tab_pos(ts: Seq<TabStateView>, id: Seq<char>, i: int)
    ensures
        match tab_pos(ts, id, i) {
            Some(k) => i <= k < ts.len() && ts[k].tab_id == id && tab_from(ts, id, i) == Some(ts[k]),
            None => tab_from(ts, id, i) is None,
        },
    decreases ts.len() - i,
{
    if 0 <= i < ts.len() && ts[i].tab_id != id {
        lemma_tab_pos(ts, id, i + 1);
    }
}

/// The position of the first session at or after `i` whose pane id is
/// `id`.
pub open spec fn session_pos(ss: Seq<PaneSessionView>, id: Seq<char>, i: int) -> Option<int>
    decreases ss.len() - i,
{
    if i < 0 || i >= ss.len() {
        None
    } else if ss[i].pane_id == id {
        Some(i)
    } else {
        session_pos(ss, id, i + 1)
    }
}

/// The position found is within the sessions.
pub proof fn lemma_session_pos(ss: Seq<PaneSessionView>, id: Seq<char>, i: int)
    ensures
        session_pos(ss, id, i) matches Some(k) ==> i <= k < ss.len(),
    decreases ss.len() - i,
{
    if 0 <= i < ss.len() && ss[i].pane_id != id {
        lemma_session_pos(ss, id, i + 1);
    }
}

/// The sessions after the terminal of pane `id` ends: its session (the one
/// a lookup of `id` finds) removed.
pub open spec fn without_session(ss: Seq<PaneSessionView>, id: Seq<char>) -> Seq<PaneSessionView> {
    match session_pos(ss, id, 0) {
        Some(i) => ss.remove(i),
        None => ss,
    }
}

/// `ids` without `id`.
pub open spec fn without_id(ids: Seq<Seq<char>>, id: Seq<char>) -> Seq<Seq<char>>
    decreases ids.len(),
{
    if ids.len() == 0 {
        Seq::empty()
    } else {
        let rest = without_id(ids.drop_last(), id);
        if ids.last() == id {
            rest
        } else {
            rest.push(ids.last())
        }
    }
}

/// The position of tab `id`.
fn tab_position(tabs: &Vec<TabState>, id: &str) -> (r: Option<usize>)
    ensures
        match r {
            Some(i) => tab_pos(tabs@.map_values(|t: TabState| t@), id@, 0) == Some(i as int),
            None => tab_pos(tabs@.map_values(|t: TabState| t@), id@, 0) is None,
        },
{
    let ghost v = tabs@.map_values(|t: TabState| t@);
    let mut i: usize = 0;
    while i < tabs.len()
        invariant
            i <= tabs@.len() == v.len(),
            v == tabs@.map_values(|t: TabState| t@),
            tab_pos(v, id@, 0) == tab_pos(v, id@, i as int),
        decreases tabs@.len() - i,
    {
        if str_eq(tabs[i].tab_id.as_str(), id) {
            return Some(i);
        }
        i = i + 1;
    }
    None
}

/// The position of the session of pane `id`.
fn session_position(sessions: &Vec<PaneSession>, id: &str) -> (r: Option<usize>)
    ensures
        match r {
            Some(i) => session_pos(sessions@.map_values(|s: PaneSession| s@), id@, 0) == Some(
                i as int,
            ),
            None => session_pos(sessions@.map_values(|s: PaneSession| s@), id@, 0) is None,
        },
{
    let ghost v = sessions@.map_values(|s: PaneSession| s@);
    let mut i: usize = 0;
    while i < sessions.len()
        invariant
            i <= sessions@.len() == v.len(),
            v == sessions@.map_values(|s: PaneSession| s@),
            session_pos(v, id@, 0) == session_pos(v, id@, i as int),
        decreases sessions@.len() - i,
    {
        if str_eq(sessions[i].pane_id.as_str(), id) {
            return Some(i);
        }
        i = i + 1;
    }
    None
}

/// Ends the session of pane `id`, if there is one.
fn remove_session(sessions: &mut Vec<PaneSession>, id: &str)
    ensures
        final(sessions)@.map_values(|s: PaneSession| s@) == without_session(
            old(sessions)@.map_values(|s: PaneSession| s@),
            id@,
        ),
{
    let ghost v = sessions@.map_values(|s: PaneSession| s@);
    match session_position(sessions, id) {
        Some(k) => {
            proof {
                lemma_session_pos(v, id@, 0);
            }
            sessions.remove(k);
            assert(sessions@.map_values(|s: PaneSession| s@) =~= v.remove(k as int));
        },
        None => {},
    }
}

/// `ids` without `id`.
fn drop_id(ids: &Vec<String>, id: &str) -> (r: Vec<String>)
    ensures
        strings_view(r@) == without_id(strings_view(ids@), id@),
{
    let ghost v = strings_view(ids@);
    let mut r: Vec<String> = Vec::new();
    let mut i: usize = 0;
    while i < ids.len()
        invariant
            i <= ids@.len() == v.len(),
            v == strings_view(ids@),
            strings_view(r@) == without_id(v.take(i as int), id@),
        decreases ids@.len() - i,
    {
        let ghost before = strings_view(r@);
        assert(v.take(i + 1).drop_last() =~= v.take(i as int));
        if !str_eq(ids[i].as_str(), id) {
            r.push(ids[i].clone());
            assert(strings_view(r@) =~= before.push(v[i as int]));
        }
        i = i + 1;
    }
    assert(v.take(ids@.len() as int) =~= v);
    r
}

/// Stores a tab opened as `tab` plans, once the terminal of its pane runs
/// (`session`): the tab, with the single-pane `layout`, comes last in the
/// display order, the session joins the others, and the new pane becomes
/// the active pane of the worksite. (When the terminal could not be
/// started, nothing is stored and the request fails with the terminal's
/// error.)
pub fn open_tab(m: &mut ManagerState, tab: &NewTab, layout: serde_json::Value, session: PaneSession)
    ensures
        final(m)@.tabs == old(m)@.tabs.push(
            TabStateView {
                tab_id: tab.tab_id@,
                record: new_tab_record_view(*tab, layout),
                leaf_ids: seq![tab.pane_id@],
            },
        ),
        final(m)@.tab_order == old(m)@.tab_order.push(tab.tab_id@),
        final(m)@.sessions == old(m)@.sessions.push(session@),
        final(m)@.active_pane_id == Some(tab.pane_id@),
{
    let ghost old_m = m@;
    let record = new_tab_record(tab, layout);
    let mut leaf_ids: Vec<String> = Vec::new();
    leaf_ids.push(tab.pane_id.clone());
    let t = TabState { tab_id: tab.tab_id.clone(), record, leaf_ids };
    proof {
        assert(strings_view(t.leaf_ids@) =~= seq![tab.pane_id@]);
    }
    m.tabs.push(t);
    m.tab_order.push(tab.tab_id.clone());
    m.sessions.push(session);
    m.active_pane_id = Some(tab.pane_id.clone());
    proof {
        assert(m@.tabs =~= old_m.tabs.push(
            TabStateView {
                tab_id: tab.tab_id@,
                record: new_tab_record_view(*tab, layout),
                leaf_ids: seq![tab.pane_id@],
            },
        ));
        assert(m@.tab_order =~= old_m.tab_order.push(tab.tab_id@));
        assert(m@.sessions =~= old_m.sessions.push(session@));
    }
}

/// Completes the split of tab `tab_id` planned as `plan`, once the new
/// pane's terminal runs (`session`) and the layout with the new pane has
/// been worked out (`new_layout`: the layout and its leaves, none when the
/// pane could not be put into it). Without a layout the split fails with
/// `LayoutNotUpdated` (500, "failed to update layout") and the new
/// terminal is ended, so nothing changes. Otherwise the tab takes the new
/// layout, the new pane becomes the tab's active pane, the session joins
/// the others, and the answer carries the new layout.
pub fn finish_split(
    m: &mut ManagerState,
    tab_id: &str,
    plan: &SplitPlan,
    session: PaneSession,
    new_layout: Option<(serde_json::Value, Vec<String>)>,
) -> (r: Result<serde_json::Value, TabError>)
    requires
        tab_named(old(m)@.tabs, tab_id@) is Some,
        session@.pane_id == plan.new_pane_id@,
    ensures
        new_layout is None ==> r == Err::<serde_json::Value, TabError>(TabError::LayoutNotUpdated)
            && final(m)@ == old(m)@,
        new_layout matches Some((l, leaves)) ==> {
            let k = tab_pos(old(m)@.tabs, tab_id@, 0)->0;
            &&& r == Ok::<serde_json::Value, TabError>(l)
            &&& final(m)@.tabs == old(m)@.tabs.update(
                k,
                TabStateView {
                    tab_id: old(m)@.tabs[k].tab_id,
                    record: TabRecordView {
                        layout: Some(l),
                        active_pane_id: Some(plan.new_pane_id@),
                        ..old(m)@.tabs[k].record
                    },
                    leaf_ids: strings_view(leaves@),
                },
            )
            &&& final(m)@.sessions == old(m)@.sessions.push(session@)
            &&& final(m)@.sessions.last().pane_id == plan.new_pane_id@
            &&& final(m)@.tab_order == old(m)@.tab_order
            &&& final(m)@.active_pane_id == old(m)@.active_pane_id
        },
{
    proof {
        lemma_tab_pos(m@.tabs, tab_id@, 0);
    }
    let (layout, leaves) = match new_layout {
        None => {
            return Err(TabError::LayoutNotUpdated);
        },
        Some(x) => x,
    };
    let k = match tab_position(&m.tabs, tab_id) {
        Some(k) => k,
        None => {
            return Err(TabError::TabNotFound);
        },
    };
    let ghost old_m = m@;
    let ghost leaves_view = strings_view(leaves@);
    let answer = clone_json(&layout);
    m.tabs[k].record.layout = Some(layout);
    m.tabs[k].record.active_pane_id = Some(plan.new_pane_id.clone());
    m.tabs[k].leaf_ids = leaves;
    m.sessions.push(session);
    proof {
        let t = old_m.tabs[k as int];
        assert(m@.tabs =~= old_m.tabs.update(
            k as int,
            TabStateView {
                tab_id: t.tab_id,
                record: TabRecordView {
                    layout: Some(answer),
                    active_pane_id: Some(plan.new_pane_id@),
                    ..t.record
                },
                leaf_ids: leaves_view,
            },
        ));
        assert(m@.sessions =~= old_m.sessions.push(session@));
    }
    Ok(answer)
}

/// What closing a pane does to its tab.
#[derive(Debug)]
pub enum ClosePane {
    /// It was the tab's last pane: the tab closed.
    TabClosed,
    /// The pane left the tab: its layout and active pane now.
    PaneRemoved { layout: serde_json::Value, active_pane_id: String },
}

/// Closes pane `pane_id` of tab `tab_id`: refused as `pane_acceptance`
/// says, changing nothing. Otherwise the pane's terminal ends (its session
/// is removed). When it was the tab's only pane, the tab closes: it leaves
/// the tabs and the display order. Otherwise the tab takes
/// `remaining_layout`, the layout without the pane (whose leaves are
/// `remaining_leaves`), and its active pane becomes the one that was
/// active if it is still a leaf, else the first leaf, else none
/// (`active_after`); the answer carries that layout and active pane.
pub fn close_pane(
    m: &mut ManagerState,
    tab_id: &str,
    pane_id: &str,
    remaining_layout: serde_json::Value,
    remaining_leaves: Vec<String>,
) -> (r: Result<ClosePane, TabError>)
    ensures
        r is Ok <==> pane_acceptance(old(m)@.tabs, tab_id@, pane_id@) is Ok,
        r matches Err(e) ==> pane_acceptance(old(m)@.tabs, tab_id@, pane_id@) == Err::<(), TabError>(
            e,
        ) && final(m)@ == old(m)@,
        r is Ok ==> {
            let k = tab_pos(old(m)@.tabs, tab_id@, 0)->0;
            let t = old(m)@.tabs[k];
            let act = active_after(t.record.active_pane_id, strings_view(remaining_leaves@));
            &&& final(m)@.sessions == without_session(old(m)@.sessions, pane_id@)
            &&& final(m)@.active_pane_id == old(m)@.active_pane_id
            &&& t.leaf_ids.len() <= 1 ==> {
                &&& r matches Ok(ClosePane::TabClosed)
                &&& final(m)@.tabs == old(m)@.tabs.remove(k)
                &&& final(m)@.tab_order == without_id(old(m)@.tab_order, tab_id@)
            }
            &&& t.leaf_ids.len() > 1 ==> {
                &&& r matches Ok(ClosePane::PaneRemoved { layout, active_pane_id }) && layout
                    == remaining_layout && active_pane_id@ == act
                &&& final(m)@.tabs == old(m)@.tabs.update(
                    k,
                    TabStateView {
                        tab_id: t.tab_id,
                        record: TabRecordView {
                            layout: Some(remaining_layout),
                            active_pane_id: Some(act),
                            ..t.record
                        },
                        leaf_ids: strings_view(remaining_leaves@),
                    },
                )
                &&& final(m)@.tab_order == old(m)@.tab_order
            }
        },
{
    let ghost old_m = m@;
    match locate_pane(m, tab_id, pane_id) {
        Ok(_) => {},
        Err(e) => {
            return Err(e);
        },
    }
    proof {
        lemma_tab_pos(old_m.tabs, tab_id@, 0);
    }
    let k = match tab_position(&m.tabs, tab_id) {
        Some(k) => k,
        None => {
            return Err(TabError::TabNotFound);
        },
    };
    assert(old_m.tabs[k as int] == m.tabs@[k as int]@);
    remove_session(&mut m.sessions, pane_id);
    if m.tabs[k].leaf_ids.len() <= 1 {
        m.tabs.remove(k);
        m.tab_order = drop_id(&m.tab_order, tab_id);
        proof {
            assert(m@.tabs =~= old_m.tabs.remove(k as int));
        }
        Ok(ClosePane::TabClosed)
    } else {
        let act = active_after_close(&m.tabs[k].record.active_pane_id, &remaining_leaves);
        let ghost leaves_view = strings_view(remaining_leaves@);
        let answer = clone_json(&remaining_layout);
        m.tabs[k].record.layout = Some(remaining_layout);
        m.tabs[k].record.active_pane_id = Some(act.clone());
        m.tabs[k].leaf_ids = remaining_leaves;
        proof {
            let t = old_m.tabs[k as int];
            assert(m@.tabs =~= old_m.tabs.update(
                k as int,
                TabStateView {
                    tab_id: t.tab_id,
                    record: TabRecordView {
                        layout: Some(answer),
                        active_pane_id: Some(act@),
                        ..t.record
                    },
                    leaf_ids: leaves_view,
                },
            ));
        }
        Ok(ClosePane::PaneRemoved { layout: answer, active_pane_id: act })
    }
}


/// The manager with tab `t` put in: in place of the tab with its id, or
/// after the others (and last in the display order) when there is none.
pub open spec fn with_tab(m: ManagerStateView, t: TabStateView) -> ManagerStateView {
    match tab_pos(m.tabs, t.tab_id, 0) {
        Some(k) => ManagerStateView {
            tab_order: m.tab_order,
            tabs: m.tabs.update(k, t),
            sessions: m.sessions,
            active_pane_id: m.active_pane_id,
        },
        None => ManagerStateView {
            tab_order: m.tab_order.push(t.tab_id),
            tabs: m.tabs.push(t),
            sessions: m.sessions,
            active_pane_id: m.active_pane_id,
        },
    }
}

/// Puts tab `t` into the manager (see `with_tab`).
pub fn insert_tab(m: &mut ManagerState, t: TabState)
    ensures
        final(m)@ == with_tab(old(m)@, t@),
{
    let ghost old_m = m@;
    match tab_position(&m.tabs, t.tab_id.as_str()) {
        Some(k) => {
            proof {
                lemma_tab_pos(m@.tabs, t.tab_id@, 0);
            }
            let ghost tv = t@;
            m.tabs.set(k, t);
            assert(m@.tabs =~= old_m.tabs.update(k as int, tv));
        },
        None => {
            let id = t.tab_id.clone();
            let ghost tv = t@;
            m.tabs.push(t);
            m.tab_order.push(id);
            assert(m@.tabs =~= old_m.tabs.push(tv));
            assert(m@.tab_order =~= old_m.tab_order.push(tv.tab_id));
        },
    }
}

/// The state a saved tab comes back as, with the leaves of its layout.
pub open spec fn restored_tab_state(t: RestoredTabView, leaves: Seq<Seq<char>>) -> TabStateView {
    TabStateView { tab_id: t.tab_id, record: restored_record(t), leaf_ids: leaves }
}

/// The manager with the tabs `ts` put in, in order.
pub open spec fn with_tabs(m: ManagerStateView, ts: Seq<TabStateView>) -> ManagerStateView
    decreases ts.len(),
{
    if ts.len() == 0 {
        m
    } else {
        with_tab(with_tabs(m, ts.drop_last()), ts.last())
    }
}

/// The saved tabs with their leaves, as the states they come back as.
pub open spec fn restored_states(tabs: Seq<(RestoredTab, Vec<String>)>) -> Seq<TabStateView> {
    tabs.map_values(|p: (RestoredTab, Vec<String>)| restored_tab_state(p.0@, strings_view(p.1@)))
}

/// The manager with the active pane `active`, when there is one.
pub open spec fn with_active(m: ManagerStateView, active: Option<Seq<char>>) -> ManagerStateView {
    match active {
        Some(a) => ManagerStateView {
            tab_order: m.tab_order,
            tabs: m.tabs,
            sessions: m.sessions,
            active_pane_id: Some(a),
        },
        None => m,
    }
}

/// Puts the saved tabs back, each with the record it was saved with and
/// the leaves of its layout, in order; then the saved active pane, when
/// there is one, becomes the active pane.
pub fn apply_restored_tabs(m: &mut ManagerState, tabs: Vec<(RestoredTab, Vec<String>)>, active: Option<String>)
    ensures
        final(m)@ == with_active(with_tabs(old(m)@, restored_states(tabs@)), opt_string_view(active)),
{
    let ghost all = restored_states(tabs@);
    let ghost old_m = m@;
    let n: usize = tabs.len();
    let mut rest = tabs;
    let mut i: usize = 0;
    while rest.len() > 0
        invariant
            i + rest@.len() == all.len() == n,
            restored_states(rest@) == all.subrange(i as int, all.len() as int),
            m@ == with_tabs(old_m, all.take(i as int)),
        decreases rest@.len(),
    {
        let ghost before = rest@;
        let (tab, leaves) = rest.remove(0);
        assert(restored_states(rest@) =~= restored_states(before).subrange(1, before.len() as int));
        assert(all[i as int] == restored_states(before)[0]);
        let (tab_id, record) = restore_tab(tab);
        let t = TabState { tab_id, record, leaf_ids: leaves };
        assert(t@ == all[i as int]);
        insert_tab(m, t);
        assert(all.take(i + 1).drop_last() =~= all.take(i as int));
        i = i + 1;
    }
    assert(all.take(i as int) =~= all);
    match active {
        Some(a) => {
            m.active_pane_id = Some(a);
        },
        None => {},
    }
}

/// A restored pane's terminal joins the sessions: in directory `cwd`, with
/// the profile it was started with, remembering the saved recent commands,
/// with no scrollback and an empty screen yet.
pub fn add_restored_session(m: &mut ManagerState, c: PaneToCreate, cwd: String)
    ensures
        final(m)@.sessions == old(m)@.sessions.push(
            PaneSessionView {
                pane_id: c.pane_id@,
                cwd: cwd@,
                shell_profile_id: match c.shell_profile {
                    Some(p) => Some(p.id@),
                    None => None,
                },
                shell_profile_name: match c.shell_profile {
                    Some(p) => Some(p.name@),
                    None => None,
                },
                recent_commands: strings_view(c.recent_commands@),
                scrollback: Seq::empty(),
                screen_text: Seq::empty(),
            },
        ),
        final(m)@.tabs == old(m)@.tabs,
        final(m)@.tab_order == old(m)@.tab_order,
        final(m)@.active_pane_id == old(m)@.active_pane_id,
{
    let (shell_profile_id, shell_profile_name) = match c.shell_profile {
        Some(p) => (Some(p.id), Some(p.name)),
        None => (None, None),
    };
    let s = PaneSession {
        pane_id: c.pane_id,
        cwd,
        shell_profile_id,
        shell_profile_name,
        recent_commands: c.recent_commands,
        scrollback: Vec::new(),
        screen_text: String::new(),
    };
    let ghost sv = s@;
    let ghost old_m = m@;
    m.sessions.push(s);
    proof {
        assert(strings_view(Seq::<String>::empty()) =~= Seq::<Seq<char>>::empty());
        assert(m@.sessions =~= old_m.sessions.push(sv));
    }
}

/// Put in place of the first tab with its id, a tab is found there.
proof fn lemma_tab_from_update(ts: Seq<TabStateView>, t: TabStateView, i: int, k: int)
    requires
        0 <= i,
        tab_pos(ts, t.tab_id, i) == Some(k),
    ensures
        tab_from(ts.update(k, t), t.tab_id, i) == Some(t),
    decreases k - i,
{
    lemma_tab_pos(ts, t.tab_id, i);
    if i < k {
        lemma_tab_from_update(ts, t, i + 1, k);
    }
}

/// Put after tabs none of which has its id, a tab is found there.
proof fn lemma_tab_from_push(ts: Seq<TabStateView>, t: TabStateView, i: int)
    requires
        0 <= i <= ts.len(),
        tab_pos(ts, t.tab_id, i) is None,
    ensures
        tab_from(ts.push(t), t.tab_id, i) == Some(t),
    decreases ts.len() - i,
{
    if i < ts.len() {
        lemma_tab_from_push(ts, t, i + 1);
    }
}

/// A tab put into the manager is the one found under its id afterwards.
pub proof fn law_inserted_tab_is_found(m: ManagerStateView, t: TabStateView)
    ensures
        tab_named(with_tab(m, t).tabs, t.tab_id) == Some(t),
{
    match tab_pos(m.tabs, t.tab_id, 0) {
        Some(k) => lemma_tab_from_update(m.tabs, t, 0, k),
        None => lemma_tab_from_push(m.tabs, t, 0),
    }
}


/// Putting in a tab with another id leaves what is found under `id` as it
/// was, from position `i` on.
proof fn lemma_tab_from_other(ts: Seq<TabStateView>, t: TabStateView, id: Seq<char>, k: int, i: int)
    requires
        0 <= i,
        t.tab_id != id,
        0 <= k < ts.len() ==> ts[k].tab_id == t.tab_id,
    ensures
        0 <= k < ts.len() ==> tab_from(ts.update(k, t), id, i) == tab_from(ts, id, i),
        tab_from(ts.push(t), id, i) == tab_from(ts, id, i),
    decreases ts.len() + 1 - i,
{
    if i <= ts.len() {
        lemma_tab_from_other(ts, t, id, k, i + 1);
    }
}

/// Putting in a tab leaves every other id's tab as it was found.
pub proof fn law_insert_keeps_other_tabs(m: ManagerStateView, t: TabStateView, id: Seq<char>)
    requires
        t.tab_id != id,
    ensures
        tab_named(with_tab(m, t).tabs, id) == tab_named(m.tabs, id),
{
    match tab_pos(m.tabs, t.tab_id, 0) {
        Some(k) => {
            lemma_tab_pos(m.tabs, t.tab_id, 0);
            lemma_tab_from_other(m.tabs, t, id, k, 0);
        },
        None => lemma_tab_from_other(m.tabs, t, id, -1, 0),
    }
}

/// When the saved tabs have distinct ids, each one is found under its id
/// once they are all put back.
pub proof fn law_restored_tabs_are_found(m: ManagerStateView, ts: Seq<TabStateView>, j: int)
    requires
        0 <= j < ts.len(),
        forall|a: int, b: int| 0 <= a < b < ts.len() ==> ts[a].tab_id != ts[b].tab_id,
    ensures
        tab_named(with_tabs(m, ts).tabs, ts[j].tab_id) == Some(ts[j]),
    decreases ts.len(),
{
    let prev = with_tabs(m, ts.drop_last());
    if j == ts.len() - 1 {
        law_inserted_tab_is_found(prev, ts.last());
    } else {
        law_restored_tabs_are_found(m, ts.drop_last(), j);
        law_insert_keeps_other_tabs(prev, ts.last(), ts[j].tab_id);
    }
}


/// A split without a requested profile starts the new pane with the
/// profile of the pane being split, when that pane's session names a
/// profile that exists; a requested profile that exists wins over it.
pub proof fn law_split_keeps_the_split_pane_profile(
    ps: Seq<ShellProfileView>,
    requested: Option<Seq<char>>,
    source: PaneSessionView,
    id: Seq<char>,
    i: int,
)
    requires
        0 <= i < ps.len(),
        ps[i].id == id,
    ensures
        requested is None && source.shell_profile_id == Some(id) ==> (resolve_profile(
            ps,
            split_profile_id(requested, Some(source)),
        ) matches Some(p) && p.id == id),
        requested == Some(id) ==> (resolve_profile(ps, split_profile_id(requested, Some(source)))
            matches Some(p) && p.id == id),
        requested matches Some(r) && (forall|j: int| 0 <= j < ps.len() ==> ps[j].id != r)
            ==> resolve_profile(ps, split_profile_id(requested, Some(source))) == first_default(ps),
        requested is None && source.shell_profile_id is None ==> resolve_profile(
            ps,
            split_profile_id(requested, Some(source)),
        ) == first_default(ps),
        requested is None ==> resolve_profile(ps, split_profile_id(requested, None)) == first_default(
            ps,
        ),
{
    law_known_profile_is_found(ps, id, i);
    if requested matches Some(r) && (forall|j: int| 0 <= j < ps.len() ==> ps[j].id != r) {
        law_unknown_profile_falls_back_to_default(ps, requested->0);
    }
}

} // verus!
