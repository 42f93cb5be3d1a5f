use dinotty::history::{
    history_file_name, history_limit, parse_history, HistoryEntry, HistoryState, HistoryTable,
};

#[test]
fn parse_bash_history_counts_frequencies() {
    let content = "ls -la\ngit status\ngit push\nls -la\ngit status\n";
    let entries = parse_history("bash", content, 1_000);
    assert_eq!(entries.get("ls -la").unwrap().frequency, 2);
    assert_eq!(entries.get("git status").unwrap().frequency, 2);
    assert_eq!(entries.get("git push").unwrap().frequency, 1);
    // All entries seeded with the supplied mtime on first load.
    assert!(entries.values().iter().all(|e| e.last_used_at == 1_000));
}

#[test]
fn parse_zsh_history_strips_metadata_line() {
    let content = ": 1700000000:0;git pull\n: 1700000001:0;git push\n";
    let entries = parse_history("zsh", content, 1_000);
    assert_eq!(entries.get("git pull").unwrap().frequency, 1);
    assert_eq!(entries.get("git push").unwrap().frequency, 1);
}

#[test]
fn parse_history_merges_continuation_lines() {
    let content = ": 1700000000:0;echo hello \\\nworld\n";
    let entries = parse_history("zsh", content, 1_000);
    assert_eq!(entries.len(), 1);
    let expected = "echo hello \nworld".to_string();
    assert!(entries.contains_key(&expected));
}

#[test]
fn recency_tiebreaker_picks_more_recent() {
    let mtime = 1_000;
    let mut entries = HistoryTable::new();
    entries.insert("git status", HistoryEntry { frequency: 5, last_used_at: mtime });
    entries.insert("git pull", HistoryEntry { frequency: 5, last_used_at: mtime + 100 });
    let list = entries.ranked(None, 100);
    // Same frequency → more recent wins.
    assert_eq!(list[0].command, "git pull");
    assert_eq!(list[1].command, "git status");
}

#[test]
fn frequency_still_beats_recency() {
    let mut entries = HistoryTable::new();
    entries.insert("git status", HistoryEntry { frequency: 100, last_used_at: 1_000 });
    entries.insert("git pull", HistoryEntry { frequency: 5, last_used_at: 9_999 });
    let list = entries.ranked(None, 100);
    assert_eq!(list[0].command, "git status");
}

#[test]
fn zsh_metadata_is_kept_for_other_shells() {
    let entries = parse_history("bash", ": 1700000000:0;git pull\n", 7);
    assert!(entries.contains_key(": 1700000000:0;git pull"));
    assert_eq!(entries.len(), 1);
}

#[test]
fn blank_lines_and_padding_are_ignored() {
    let entries = parse_history("bash", "  ls  \n\n   \nls\r\n", 3);
    assert_eq!(entries.len(), 1);
    assert_eq!(entries.get("ls").unwrap(), HistoryEntry { frequency: 2, last_used_at: 3 });
}

#[test]
fn history_limit_defaults_and_caps() {
    assert_eq!(history_limit(None), 20);
    assert_eq!(history_limit(Some(5)), 5);
    assert_eq!(history_limit(Some(100)), 100);
    assert_eq!(history_limit(Some(1000)), 100);
}

#[test]
fn history_file_names_per_shell() {
    assert_eq!(history_file_name("zsh"), ".zsh_history");
    assert_eq!(history_file_name("bash"), ".bash_history");
    assert_eq!(history_file_name("fish"), ".sh_history");
}

#[test]
fn insert_replaces_existing_statistics() {
    let mut t = HistoryTable::new();
    t.insert("ls", HistoryEntry { frequency: 1, last_used_at: 1 });
    t.insert("ls", HistoryEntry { frequency: 9, last_used_at: 2 });
    assert_eq!(t.len(), 1);
    assert_eq!(t.get("ls").unwrap(), HistoryEntry { frequency: 9, last_used_at: 2 });
}

#[test]
fn query_filters_by_substring_and_limits() {
    let mut s = HistoryState::new("bash");
    s.load_initial("git status\ngit push\nls\ngit status\n", 10);
    let all = s.query(Some("it"), 10);
    assert_eq!(all.len(), 2);
    assert_eq!(all[0].command, "git status");
    assert_eq!(all[0].frequency, 2);
    assert_eq!(all[0].last_used_at, Some(10));
    assert_eq!(all[1].command, "git push");
    let one = s.query(None, 1);
    assert_eq!(one.len(), 1);
    assert_eq!(one[0].command, "git status");
    let empty_filter = s.query(Some(""), 10);
    assert_eq!(empty_filter.len(), 3);
    assert_eq!(s.top_suggestions().len(), 3);
}

#[test]
fn realtime_push_counts_and_stamps() {
    let mut s = HistoryState::new("bash");
    s.push_realtime_at("  make test  ", 50);
    s.push_realtime_at("make test", 60);
    s.push_realtime_at("   ", 70);
    let q = s.query(None, 10);
    assert_eq!(q.len(), 1);
    assert_eq!(q[0].command, "make test");
    assert_eq!(q[0].frequency, 2);
    assert_eq!(q[0].last_used_at, Some(60));
    assert!(!s.push_would_overflow("make test"));
}

#[test]
fn deleted_command_is_not_recorded_nor_reloaded() {
    let mut s = HistoryState::new("bash");
    s.load_initial("rm -rf build\nls\n", 5);
    s.delete("rm -rf build");
    assert_eq!(s.query(None, 10).len(), 1);
    s.push_realtime_at("rm -rf build", 99);
    assert_eq!(s.query(None, 10).len(), 1);
    s.reload_incremental("rm -rf build\nls\nls\n", 8);
    let q = s.query(None, 10);
    assert_eq!(q.len(), 1);
    assert_eq!(q[0].command, "ls");
    assert_eq!(q[0].frequency, 2);
    assert_eq!(q[0].last_used_at, Some(8));
}

#[test]
fn realtime_push_updates_clock() {
    let mut s = HistoryState::new("zsh");
    s.push_realtime("cargo build");
    let q = s.query(None, 10);
    assert_eq!(q.len(), 1);
    assert!(q[0].last_used_at.unwrap() > 1_600_000_000);
    assert_eq!(s.shell_type(), "zsh");
}
