use dinotty::restore_state::{
    restore_pane, ManagerState, PaneSession, PaneToCreate, RestoredPane, RestoredTab, TabRecord, TabState,
};
use dinotty::shell_profiles::builtin_profiles;
use dinotty::tabs::{
    activate_pane, active_after_close, add_restored_session, apply_close_tab, apply_restored_tabs,
    close_pane, close_tab, create_tab, cwd_from_workspace_roots, insert_tab,
    first_existing_root,
    finish_split, new_tab_record, open_tab, split_pane, update_layout, update_tab_meta, ClosePane,
    CreateTabRequest,
    SplitPaneRequest, TabError, UpdateLayoutRequest, UpdateTabMetaRequest,
};

fn layout(kind: &str) -> serde_json::Value {
    serde_json::from_str(&format!("{{\"type\":\"{}\"}}", kind)).unwrap()
}

fn s(x: &str) -> String {
    x.to_string()
}

fn strings(v: &[&str]) -> Vec<String> {
    v.iter().map(|x| s(x)).collect()
}

fn tab(id: &str, leaves: &[&str], with_layout: bool) -> TabState {
    TabState {
        tab_id: s(id),
        record: TabRecord {
            layout: if with_layout { Some(layout("leaf")) } else { None },
            active_pane_id: leaves.first().map(|l| s(l)),
            shell_profile_id: None,
            shell_profile_name: None,
            group_id: None,
            workspace_roots: strings(&["/definitely/not/here", "/"]),
        },
        leaf_ids: strings(leaves),
    }
}

fn manager() -> ManagerState {
    ManagerState {
        tab_order: strings(&["a", "b", "c"]),
        tabs: vec![tab("a", &["p1", "p2"], true), tab("b", &["p3"], true), tab("c", &["p4"], false)],
        sessions: vec![PaneSession {
            pane_id: s("p1"),
            cwd: s("/home/me"),
            shell_profile_id: Some(s("unix-shell")),
            shell_profile_name: None,
            recent_commands: vec![],
            scrollback: vec![],
            screen_text: s(""),
        }],
        active_pane_id: Some(s("p1")),
    }
}

#[test]
fn refusals_have_status_and_message() {
    assert_eq!(TabError::TabNotFound.status(), 404);
    assert_eq!(TabError::TabNotFound.message(), "tab not found");
    assert_eq!(TabError::NoLayout.status(), 500);
    assert_eq!(TabError::NoLayout.message(), "tab has no layout");
    assert_eq!(TabError::PaneNotFound.status(), 404);
    assert_eq!(TabError::PaneNotFound.message(), "pane not found in tab");
}

#[test]
fn workspace_roots_give_the_first_existing_directory() {
    assert_eq!(cwd_from_workspace_roots(&strings(&["/definitely/not/here", "/"])), Some(s("/")));
    assert_eq!(cwd_from_workspace_roots(&strings(&["/definitely/not/here"])), None);
    assert_eq!(cwd_from_workspace_roots(&vec![]), None);
}

#[test]
fn first_root_marked_as_a_directory() {
    let roots = strings(&["/a", "/b", "/c"]);
    assert_eq!(first_existing_root(&roots, &vec![false, true, true]), Some(s("/b")));
    assert_eq!(first_existing_root(&roots, &vec![false, false, false]), None);
    assert_eq!(first_existing_root(&roots, &vec![false]), None);
    assert_eq!(first_existing_root(&roots, &vec![true]), Some(s("/a")));
}

#[test]
fn new_tab_uses_requested_profile_and_roots() {
    let profiles = builtin_profiles(false, "/bin/bash", &vec![], false, false, false);
    let req = CreateTabRequest {
        profile_id: Some(s("nope")),
        group_id: Some(s("grp")),
        workspace_roots: strings(&["/"]),
    };
    let t = create_tab(&req, &profiles);
    assert_eq!(t.shell_profile_id, Some(profiles[0].id.clone()));
    assert_eq!(t.shell_profile_name, Some(profiles[0].name.clone()));
    assert_eq!(t.group_id, Some(s("grp")));
    assert_eq!(t.cwd, Some(s("/")));
    assert_eq!(t.tab_id.len(), 36);
    assert_eq!(t.pane_id.len(), 36);
    assert_ne!(t.tab_id, t.pane_id);
    let rec = new_tab_record(&t, layout("leaf"));
    assert_eq!(rec.active_pane_id, Some(t.pane_id.clone()));
    assert_eq!(rec.layout, Some(layout("leaf")));
    assert_eq!(rec.workspace_roots, strings(&["/"]));
    let d = create_tab(&CreateTabRequest::default(), &profiles);
    assert_eq!(d.cwd, None);
    assert!(d.workspace_roots.is_empty());
}

#[test]
fn split_checks_tab_layout_and_pane() {
    let m = manager();
    let profiles = builtin_profiles(false, "/bin/bash", &vec![], false, false, false);
    let req = |pane: &str| SplitPaneRequest { pane_id: s(pane), direction: s("vertical"), profile_id: None };
    assert_eq!(split_pane(&m, "zz", &req("p1"), &profiles).unwrap_err(), TabError::TabNotFound);
    assert_eq!(split_pane(&m, "c", &req("p4"), &profiles).unwrap_err(), TabError::NoLayout);
    assert_eq!(split_pane(&m, "a", &req("p3"), &profiles).unwrap_err(), TabError::PaneNotFound);
    let plan = split_pane(&m, "a", &req("p1"), &profiles).unwrap();
    assert_eq!(plan.new_pane_id.len(), 36);
    assert_eq!(plan.cwd, Some(s("/home/me")));
    assert_eq!(plan.shell_profile.unwrap().id, profiles[0].id);
    let plan2 = split_pane(&m, "a", &req("p2"), &profiles).unwrap();
    assert_eq!(plan2.cwd, Some(s("/")));
}

#[test]
fn closing_the_last_pane_closes_the_tab() {
    let m = manager();
    let mut m = m;
    let null = serde_json::Value::Null;
    assert!(matches!(close_pane(&mut m, "a", "p9", null.clone(), vec![]), Err(TabError::PaneNotFound)));
    assert!(matches!(close_pane(&mut m, "c", "p4", null.clone(), vec![]), Err(TabError::NoLayout)));
    assert!(matches!(close_pane(&mut m, "q", "p4", null.clone(), vec![]), Err(TabError::TabNotFound)));
    assert_eq!(m.tabs.len(), 3);
    // the last pane of tab "b": the tab closes
    assert!(matches!(close_pane(&mut m, "b", "p3", null.clone(), vec![]), Ok(ClosePane::TabClosed)));
    assert_eq!(m.tabs.len(), 2);
    assert_eq!(m.tab_order, strings(&["a", "c"]));
    // p1 of tab "a" (active, with a session): the tab keeps p2, which becomes active
    match close_pane(&mut m, "a", "p1", layout("leaf"), strings(&["p2"])) {
        Ok(ClosePane::PaneRemoved { layout: l, active_pane_id }) => {
            assert_eq!(l, layout("leaf"));
            assert_eq!(active_pane_id, "p2");
        },
        other => panic!("unexpected {:?}", other),
    }
    assert_eq!(m.tabs[0].record.active_pane_id, Some(s("p2")));
    assert_eq!(m.tabs[0].leaf_ids, strings(&["p2"]));
    assert!(m.sessions.is_empty());
    assert_eq!(m.active_pane_id, Some(s("p1")));
}

#[test]
fn active_pane_after_a_close() {
    assert_eq!(active_after_close(&Some(s("p2")), &strings(&["p1", "p2"])), "p2");
    assert_eq!(active_after_close(&Some(s("p9")), &strings(&["p1", "p2"])), "p1");
    assert_eq!(active_after_close(&None, &strings(&["p5"])), "p5");
    assert_eq!(active_after_close(&Some(s("p2")), &vec![]), "");
}

#[test]
fn closing_a_tab_ends_its_panes() {
    let m = manager();
    assert_eq!(close_tab(&m, "a"), strings(&["p1", "p2"]));
    assert!(close_tab(&m, "c").is_empty());
    assert!(close_tab(&m, "none").is_empty());
}

#[test]
fn activation_sets_tab_and_worksite_active_pane() {
    let mut m = manager();
    assert_eq!(activate_pane(&mut m, "a", "p2"), Ok(()));
    assert_eq!(m.tabs[0].record.active_pane_id, Some(s("p2")));
    assert_eq!(m.active_pane_id, Some(s("p2")));
    assert_eq!(activate_pane(&mut m, "c", "p4"), Err(TabError::PaneNotFound));
    assert_eq!(activate_pane(&mut m, "x", "p4"), Err(TabError::TabNotFound));
    assert_eq!(m.active_pane_id, Some(s("p2")));
}

#[test]
fn layout_and_meta_updates() {
    let mut m = manager();
    let req = UpdateLayoutRequest { layout: layout("split"), active_pane_id: s("p7") };
    assert_eq!(update_layout(&mut m, "b", req, strings(&["p3", "p7"])), Ok(()));
    assert_eq!(m.tabs[1].record.layout, Some(layout("split")));
    assert_eq!(m.tabs[1].record.active_pane_id, Some(s("p7")));
    assert_eq!(m.tabs[1].leaf_ids, strings(&["p3", "p7"]));
    let missing = UpdateLayoutRequest { layout: serde_json::Value::Null, active_pane_id: s("p") };
    assert_eq!(update_layout(&mut m, "zz", missing, vec![]), Err(TabError::TabNotFound));

    let meta = UpdateTabMetaRequest { group_id: Some(Some(s("work"))), workspace_roots: None };
    assert_eq!(update_tab_meta(&mut m, "a", meta), Ok(()));
    assert_eq!(m.tabs[0].record.group_id, Some(s("work")));
    assert_eq!(m.tabs[0].record.workspace_roots, strings(&["/definitely/not/here", "/"]));
    let ungroup = UpdateTabMetaRequest { group_id: Some(None), workspace_roots: Some(strings(&["/x"])) };
    assert_eq!(update_tab_meta(&mut m, "a", ungroup), Ok(()));
    assert_eq!(m.tabs[0].record.group_id, None);
    assert_eq!(m.tabs[0].record.workspace_roots, strings(&["/x"]));
    let none = UpdateTabMetaRequest { group_id: None, workspace_roots: None };
    assert_eq!(update_tab_meta(&mut m, "zz", none), Err(TabError::TabNotFound));
}

#[test]
fn opening_a_tab_stores_it_with_its_session() {
    let mut m = manager();
    let profiles = builtin_profiles(false, "/bin/bash", &vec![], false, false, false);
    let t = create_tab(&CreateTabRequest::default(), &profiles);
    let session = PaneSession {
        pane_id: t.pane_id.clone(),
        cwd: s("/home/me"),
        shell_profile_id: t.shell_profile_id.clone(),
        shell_profile_name: None,
        recent_commands: vec![],
        scrollback: vec![],
        screen_text: s(""),
    };
    open_tab(&mut m, &t, layout("leaf"), session);
    assert_eq!(m.tabs.len(), 4);
    assert_eq!(m.tabs[3].tab_id, t.tab_id);
    assert_eq!(m.tabs[3].leaf_ids, vec![t.pane_id.clone()]);
    assert_eq!(m.tabs[3].record.active_pane_id, Some(t.pane_id.clone()));
    assert_eq!(m.tab_order.last(), Some(&t.tab_id));
    assert_eq!(m.sessions.len(), 2);
    assert_eq!(m.active_pane_id, Some(t.pane_id.clone()));
}

#[test]
fn finishing_a_split_stores_the_layout_or_fails() {
    let mut m = manager();
    let profiles = builtin_profiles(false, "/bin/bash", &vec![], false, false, false);
    let req = SplitPaneRequest { pane_id: s("p1"), direction: s("vertical"), profile_id: None };
    let plan = split_pane(&m, "a", &req, &profiles).unwrap();
    let session = |id: &str| PaneSession {
        pane_id: s(id),
        cwd: s("/"),
        shell_profile_id: None,
        shell_profile_name: None,
        recent_commands: vec![],
        scrollback: vec![],
        screen_text: s(""),
    };
    let failed = finish_split(&mut m, "a", &plan, session(&plan.new_pane_id), None);
    assert!(matches!(failed, Err(TabError::LayoutNotUpdated)));
    assert_eq!(TabError::LayoutNotUpdated.status(), 500);
    assert_eq!(TabError::LayoutNotUpdated.message(), "failed to update layout");
    assert_eq!(m.sessions.len(), 1);
    assert_eq!(m.tabs[0].leaf_ids, strings(&["p1", "p2"]));
    let leaves = vec![s("p1"), plan.new_pane_id.clone(), s("p2")];
    let done = finish_split(&mut m, "a", &plan, session(&plan.new_pane_id), Some((layout("split"), leaves.clone())));
    assert_eq!(done.unwrap(), layout("split"));
    assert_eq!(m.tabs[0].record.layout, Some(layout("split")));
    assert_eq!(m.tabs[0].record.active_pane_id, Some(plan.new_pane_id.clone()));
    assert_eq!(m.tabs[0].leaf_ids, leaves);
    assert_eq!(m.sessions.len(), 2);
    assert_eq!(m.active_pane_id, Some(s("p1")));
}

fn with_sessions(ids: &[&str]) -> ManagerState {
    let mut m = manager();
    m.sessions = ids
        .iter()
        .map(|id| PaneSession {
            pane_id: s(id),
            cwd: s("/"),
            shell_profile_id: None,
            shell_profile_name: None,
            recent_commands: vec![],
            scrollback: vec![],
            screen_text: s(""),
        })
        .collect();
    m
}

#[test]
fn closing_a_tab_removes_it_with_its_sessions() {
    let mut m = with_sessions(&["p1", "p2", "p3"]);
    let ended = apply_close_tab(&mut m, "a");
    assert_eq!(ended, strings(&["p1", "p2"]));
    assert_eq!(m.tab_order, strings(&["b", "c"]));
    let ids: Vec<&str> = m.tabs.iter().map(|t| t.tab_id.as_str()).collect();
    assert_eq!(ids, vec!["b", "c"]);
    let sids: Vec<&str> = m.sessions.iter().map(|x| x.pane_id.as_str()).collect();
    assert_eq!(sids, vec!["p3"]);
    assert_eq!(m.active_pane_id, Some(s("p1")));
    // a tab without a layout ends no pane, but is removed
    let ended = apply_close_tab(&mut m, "c");
    assert!(ended.is_empty());
    assert_eq!(m.tab_order, strings(&["b"]));
    // a missing tab changes nothing
    let ended = apply_close_tab(&mut m, "zzz");
    assert!(ended.is_empty());
    assert_eq!(m.tab_order, strings(&["b"]));
    assert_eq!(m.tabs.len(), 1);
}

#[test]
fn inserting_a_tab_replaces_or_appends() {
    let mut m = manager();
    insert_tab(&mut m, tab("b", &["q1"], true));
    assert_eq!(m.tab_order, strings(&["a", "b", "c"]));
    assert_eq!(m.tabs[1].leaf_ids, strings(&["q1"]));
    insert_tab(&mut m, tab("d", &["q2"], true));
    assert_eq!(m.tab_order, strings(&["a", "b", "c", "d"]));
    assert_eq!(m.tabs[3].tab_id, "d");
}

#[test]
fn restored_tabs_and_active_pane_are_applied() {
    let mut m = manager();
    let saved = RestoredTab {
        tab_id: s("r1"),
        layout: layout("split"),
        active_pane_id: Some(s("x2")),
        shell_profile_id: Some(s("unix-shell")),
        shell_profile_name: Some(s("Shell")),
        group_id: Some(s("g")),
        workspace_roots: strings(&["/w"]),
    };
    apply_restored_tabs(&mut m, vec![(saved, strings(&["x1", "x2"]))], Some(s("x2")));
    assert_eq!(m.tab_order, strings(&["a", "b", "c", "r1"]));
    let t = &m.tabs[3];
    assert_eq!(t.tab_id, "r1");
    assert_eq!(t.record.layout, Some(layout("split")));
    assert_eq!(t.record.active_pane_id, Some(s("x2")));
    assert_eq!(t.record.group_id, Some(s("g")));
    assert_eq!(t.record.workspace_roots, strings(&["/w"]));
    assert_eq!(t.leaf_ids, strings(&["x1", "x2"]));
    assert_eq!(m.active_pane_id, Some(s("x2")));
    apply_restored_tabs(&mut m, vec![], None);
    assert_eq!(m.active_pane_id, Some(s("x2")));
}

#[test]
fn a_restored_session_remembers_its_commands() {
    let mut m = manager();
    let c = PaneToCreate {
        pane_id: s("x1"),
        cwd: Some(s("/w")),
        shell_profile: None,
        recent_commands: strings(&["ls", "make"]),
    };
    add_restored_session(&mut m, c, s("/w"));
    let last = m.sessions.last().unwrap();
    assert_eq!(last.pane_id, "x1");
    assert_eq!(last.cwd, "/w");
    assert_eq!(last.recent_commands, strings(&["ls", "make"]));
    assert!(last.scrollback.is_empty());
    assert_eq!(m.sessions.len(), 2);
}

#[test]
fn a_saved_pane_comes_back_once_with_its_commands() {
    let mut m = manager();
    let saved = RestoredPane {
        pane_id: s("x9"),
        tab_id: s("a"),
        cwd: Some(s("/srv")),
        shell_profile_id: None,
        shell_profile_name: None,
        output_tail: vec![],
        recent_commands: strings(&["make test"]),
    };
    let profiles = builtin_profiles(false, "/bin/bash", &vec![], false, false, false);
    assert!(restore_pane(&saved, true, &profiles).is_none());
    let c = restore_pane(&saved, false, &profiles).unwrap();
    add_restored_session(&mut m, c, s("/srv"));
    let last = m.sessions.last().unwrap();
    assert_eq!(last.pane_id, "x9");
    assert_eq!(last.recent_commands, strings(&["make test"]));
}

