use dinotty::restore_state::{
    accept_loaded_state, output_tail_limit, restore_pane, restore_tab, save_state, should_restore,
    snapshot, snapshot_at, ManagerState, PaneSession, RestoreConfig, RestoredPane, TabRecord,
    TabState, WorksiteState, STATE_VERSION,
};
use dinotty::shell_profiles::builtin_profiles;

fn layout(kind: &str) -> serde_json::Value {
    serde_json::from_str(&format!("{{\"type\":\"{}\"}}", kind)).unwrap()
}

fn s(x: &str) -> String {
    x.to_string()
}

fn config(max_commands: usize, tails: bool) -> RestoreConfig {
    RestoreConfig {
        enabled: true,
        max_commands_per_pane: max_commands,
        max_output_tail_lines: 50,
        persist_output_tails: tails,
    }
}

fn tab(id: &str, leaves: &[&str], layout: Option<serde_json::Value>) -> TabState {
    TabState {
        tab_id: s(id),
        record: TabRecord {
            layout,
            active_pane_id: leaves.first().map(|l| s(l)),
            shell_profile_id: Some(s("tab-profile")),
            shell_profile_name: Some(s("Tab Profile")),
            group_id: Some(s("g")),
            workspace_roots: vec![s("/work")],
        },
        leaf_ids: leaves.iter().map(|l| s(l)).collect(),
    }
}

fn session(id: &str, cmds: &[&str]) -> PaneSession {
    PaneSession {
        pane_id: s(id),
        cwd: s("/home/u"),
        shell_profile_id: None,
        shell_profile_name: Some(s("Own")),
        recent_commands: cmds.iter().map(|c| s(c)).collect(),
        scrollback: vec![s("line 1")],
        screen_text: s("$ "),
    }
}

fn manager() -> ManagerState {
    ManagerState {
        tab_order: vec![s("t1"), s("missing"), s("t2"), s("t3")],
        tabs: vec![
            tab("t2", &["p3"], Some(serde_json::Value::Null)),
            tab("t1", &["p1", "p2"], Some(layout("split"))),
            tab("t3", &["p4"], None),
        ],
        sessions: vec![session("p1", &["a", "b", "c"]), session("p3", &[])],
        active_pane_id: Some(s("p2")),
    }
}

#[test]
fn snapshot_keeps_tabs_in_order_and_panes_in_layout_order() {
    let m = manager();
    let st = snapshot_at(&m, &config(2, true), 1234);
    assert_eq!(st.version, STATE_VERSION);
    assert_eq!(st.updated_at, 1234);
    assert_eq!(st.active_pane_id, Some(s("p2")));
    let tab_ids: Vec<&str> = st.tabs.iter().map(|t| t.tab_id.as_str()).collect();
    assert_eq!(tab_ids, vec!["t1", "t2"]);
    assert_eq!(st.tabs[0].layout, layout("split"));
    assert_eq!(st.tabs[0].group_id, Some(s("g")));
    let pane_ids: Vec<&str> = st.panes.iter().map(|p| p.pane_id.as_str()).collect();
    assert_eq!(pane_ids, vec!["p1", "p2", "p3"]);
    let p1 = &st.panes[0];
    assert_eq!(p1.tab_id, "t1");
    assert_eq!(p1.cwd, Some(s("/home/u")));
    assert_eq!(p1.recent_commands, vec![s("b"), s("c")]);
    assert_eq!(p1.shell_profile_id, Some(s("tab-profile")));
    assert_eq!(p1.shell_profile_name, Some(s("Own")));
    assert_eq!(p1.output_tail, vec![s("line 1"), s("$ ")]);
    let p2 = &st.panes[1];
    assert_eq!(p2.cwd, None);
    assert!(p2.recent_commands.is_empty());
    assert!(p2.output_tail.is_empty());
    assert_eq!(p2.shell_profile_name, Some(s("Tab Profile")));
}

#[test]
fn snapshot_without_output_tails_and_with_a_zero_command_limit() {
    let m = manager();
    let st = snapshot_at(&m, &config(0, false), 1);
    assert!(st.panes[0].output_tail.is_empty());
    assert_eq!(st.panes[0].recent_commands, vec![s("c")]);
}

#[test]
fn snapshot_is_stamped_now() {
    let st = snapshot(&manager(), &config(5, true));
    assert!(st.updated_at > 1_600_000_000_000);
    assert_eq!(st.panes.len(), 3);
}

#[test]
fn loaded_state_needs_this_version() {
    let st = WorksiteState { version: 2, updated_at: 0, active_pane_id: None, tabs: vec![], panes: vec![] };
    assert!(accept_loaded_state(st).is_none());
    let ok = WorksiteState { version: 1, updated_at: 0, active_pane_id: None, tabs: vec![], panes: vec![] };
    assert!(accept_loaded_state(ok).is_some());
}

#[test]
fn saving_follows_the_setting() {
    let m = manager();
    let saved = save_state(&m, &config(1, true)).unwrap();
    assert_eq!(saved.panes.len(), 3);
    assert_eq!(saved.panes[0].recent_commands, vec![s("c")]);
    let mut off = config(1, true);
    off.enabled = false;
    assert!(save_state(&m, &off).is_none());
    off.max_output_tail_lines = 0;
    assert_eq!(output_tail_limit(&off), 1);
    assert_eq!(output_tail_limit(&config(1, true)), 50);
}

#[test]
fn restoring_needs_tabs_and_panes() {
    let st = snapshot_at(&manager(), &config(5, true), 9);
    assert!(should_restore(false, Some(snapshot_at(&manager(), &config(5, true), 9))).is_none());
    assert!(should_restore(true, None).is_none());
    let empty = WorksiteState { version: 1, updated_at: 0, active_pane_id: None, tabs: vec![], panes: vec![] };
    assert!(should_restore(true, Some(empty)).is_none());
    let back = should_restore(true, Some(st)).unwrap();
    assert_eq!(back.updated_at, 9);
}

#[test]
fn saved_tab_gets_its_record_back() {
    let m = manager();
    let st = snapshot_at(&m, &config(5, true), 9);
    let t = st.tabs.into_iter().next().unwrap();
    let (id, rec) = restore_tab(t);
    assert_eq!(id, "t1");
    assert_eq!(rec.layout, Some(layout("split")));
    assert_eq!(rec.active_pane_id, Some(s("p1")));
    assert_eq!(rec.shell_profile_id, Some(s("tab-profile")));
    assert_eq!(rec.workspace_roots, vec![s("/work")]);
}

#[test]
fn saved_pane_is_recreated_unless_running() {
    let profiles = builtin_profiles(false, "/bin/bash", &vec![], false, false, false);
    let pane = RestoredPane {
        pane_id: s("p9"),
        tab_id: s("t1"),
        cwd: Some(s("/srv")),
        shell_profile_id: Some(s("gone")),
        shell_profile_name: None,
        output_tail: vec![],
        recent_commands: vec![s("make")],
    };
    assert!(restore_pane(&pane, true, &profiles).is_none());
    let c = restore_pane(&pane, false, &profiles).unwrap();
    assert_eq!(c.pane_id, "p9");
    assert_eq!(c.cwd, Some(s("/srv")));
    assert_eq!(c.shell_profile.unwrap().id, profiles[0].id);
    assert_eq!(c.recent_commands, vec![s("make")]);
}

#[test]
fn snapshot_keeps_only_the_last_scrollback_lines() {
    let mut m = manager();
    m.sessions[0].scrollback = vec![s("l1"), s("l2"), s("l3")];
    let mut c = config(5, true);
    c.max_output_tail_lines = 2;
    let st = snapshot_at(&m, &c, 1);
    assert_eq!(st.panes[0].output_tail, vec![s("l2"), s("l3"), s("$ ")]);
    c.max_output_tail_lines = 0;
    let st = snapshot_at(&m, &c, 1);
    assert_eq!(st.panes[0].output_tail, vec![s("l3"), s("$ ")]);
}
