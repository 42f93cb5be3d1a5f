use dinotty::shell_profiles::{
    builtin_profiles, default_profile, find_profile, list_profiles, windows_profiles, ShellProfileKind,
};

#[test]
fn unix_builtin_profiles_have_default_on_non_windows() {
    let profiles = builtin_profiles(false, "/bin/bash", &vec![], false, false, false);
    assert_eq!(profiles.len(), 1);
    assert!(profiles[0].is_default);
    assert_eq!(profiles[0].kind, ShellProfileKind::Unix);
}

#[test]
fn find_profile_falls_back_to_default() {
    let profiles = builtin_profiles(false, "/bin/zsh", &vec![], false, false, false);
    let default = default_profile(&profiles).unwrap();
    let found = find_profile(&profiles, Some("missing-profile")).unwrap();
    assert_eq!(found.id, default.id);
}

#[test]
fn unix_profile_is_named_after_the_shell() {
    let profiles = builtin_profiles(false, "/usr/bin/fish", &vec!["-l".to_string()], false, false, false);
    assert_eq!(profiles[0].command, "/usr/bin/fish");
    assert_eq!(profiles[0].args, vec!["-l".to_string()]);
    assert_eq!(profiles[0].name, "fish");
}

#[test]
fn windows_profiles_have_one_default() {
    let all = windows_profiles(true, true, true);
    assert_eq!(all.iter().filter(|p| p.is_default).count(), 1);
    let none = windows_profiles(false, false, false);
    assert_eq!(none.iter().filter(|p| p.is_default).count(), 1);
    assert!(none.iter().any(|p| p.kind == ShellProfileKind::Cmd));
}

#[test]
fn known_profile_is_found_by_id() {
    let profiles = windows_profiles(true, true, true);
    let id = profiles[profiles.len() - 1].id.clone();
    let found = find_profile(&profiles, Some(&id)).unwrap();
    assert_eq!(found.id, id);
    let none_given = find_profile(&profiles, None).unwrap();
    assert!(none_given.is_default);
}

#[test]
fn listing_reports_the_default_id() {
    let profiles = builtin_profiles(false, "/bin/sh", &vec![], false, false, false);
    let listing = list_profiles(&profiles);
    assert_eq!(listing.profiles.len(), 1);
    assert_eq!(listing.default_profile_id, Some(profiles[0].id.clone()));
    let empty = list_profiles(&vec![]);
    assert_eq!(empty.default_profile_id, None);
    assert!(default_profile(&vec![]).is_none());
}

#[test]
fn windows_machines_get_the_windows_profiles() {
    let profiles = builtin_profiles(true, "", &vec![], true, false, true);
    let ids: Vec<&str> = profiles.iter().map(|p| p.id.as_str()).collect();
    assert_eq!(ids, vec!["wsl-default", "powershell", "cmd"]);
    assert_eq!(profiles[1].command, "powershell.exe");
    assert!(profiles[0].is_default);
    let only_cmd = builtin_profiles(true, "/bin/bash", &vec![], false, false, false);
    assert_eq!(only_cmd.len(), 1);
    assert_eq!(only_cmd[0].kind, ShellProfileKind::Cmd);
    assert!(only_cmd[0].is_default);
}
