use clean_rs::{App, AppState, CleanupItem, CleanupType, Deletion, FsNode, KEY_COOLDOWN_MS};

fn file(dir: &str, name: &str, size: u64) -> FsNode {
    FsNode::File { path: format!("{}/{}", dir, name), name: name.to_string(), size }
}

fn dir(path: &str, entries: Vec<FsNode>) -> FsNode {
    FsNode::Dir { path: path.to_string(), name: "d".to_string(), entries }
}

fn target(id: &str, path: &str, enabled: bool) -> CleanupItem {
    CleanupItem {
        id: id.to_string(),
        name: id.to_uppercase(),
        description: String::new(),
        cleanup_type: CleanupType::Directory(path.to_string()),
        enabled,
    }
}

fn flags(app: &App) -> Vec<bool> {
    app.cleanup_items().iter().map(|i| i.enabled).collect()
}

/// Target A: a 13-byte and a 1024-byte file; target B: a nested directory
/// holding a 2048-byte file.
fn scenario() -> (App, Vec<Vec<Option<FsNode>>>) {
    let a = dir("/a", vec![file("/a", "file1.txt", 13), file("/a", "file2.txt", 1024)]);
    let b = dir("/b", vec![dir("/b/sub", vec![file("/b/sub", "file3.txt", 2048)])]);
    let app = App::new(vec![target("a", "/a", true), target("b", "/b", true)]);
    (app, vec![vec![Some(a)], vec![Some(b)]])
}

#[test]
fn debounce_accepts_first_then_waits_for_cooldown() {
    let (mut app, _) = scenario();
    assert!(app.should_process_key(1000));
    assert!(!app.should_process_key(1050));
    assert!(app.should_process_key(1250));
    assert!(!app.should_process_key(1250 + KEY_COOLDOWN_MS - 1));
    assert!(app.should_process_key(1250 + KEY_COOLDOWN_MS));
}

#[test]
fn debounce_rejects_a_clock_going_backwards() {
    let (mut app, _) = scenario();
    assert!(app.should_process_key(5000));
    assert!(!app.should_process_key(100));
}

#[test]
fn scan_totals_scenario() {
    let (mut app, roots) = scenario();
    app.scan_all(&roots);
    assert_eq!(app.state(), AppState::ScanningDone);
    let mb = app.get_total_size_bytes(false) as f64 / (1024.0 * 1024.0);
    assert_eq!(mb, (13.0 + 1024.0 + 2048.0) / (1024.0 * 1024.0));
    assert_eq!(app.get_total_files(false), 3);
    assert_eq!(app.get_total_files(true), 0);
}

#[test]
fn disabled_targets_are_not_scanned() {
    let (mut app, roots) = scenario();
    app.toggle_selection();
    app.scan_all(&roots);
    assert!(app.scan_results()[0].is_none());
    assert_eq!(app.scan_results()[1].unwrap().files, 1);
    assert_eq!(app.get_total_files(false), 1);
}

#[test]
fn select_all_then_deselect_all_disables_every_target() {
    let (mut app, _) = scenario();
    app.toggle_selection();
    app.select_all();
    assert_eq!(flags(&app), vec![true, true]);
    app.deselect_all();
    assert_eq!(flags(&app), vec![false, false]);
}

#[test]
fn invert_twice_restores_flags() {
    let mut app = App::new(vec![target("a", "/a", true), target("b", "/b", false), target("c", "/c", true)]);
    app.invert_selection();
    assert_eq!(flags(&app), vec![false, true, false]);
    app.invert_selection();
    assert_eq!(flags(&app), vec![true, false, true]);
}

#[test]
fn clean_without_scan_is_a_no_op() {
    let (mut app, roots) = scenario();
    assert!(!app.begin_clean());
    assert!(app.clean_item(0, &roots[0], false).is_empty());
    app.finish_clean();
    assert_eq!(app.state(), AppState::Initial);
    assert!(app.clean_results().iter().all(|r| r.is_none()));
}

#[test]
fn clean_pass_after_scan() {
    let (mut app, roots) = scenario();
    app.select_all();
    app.next();
    app.toggle_selection();
    app.scan_all(&roots);
    assert!(app.begin_clean());
    assert_eq!(app.state(), AppState::Cleaning);
    assert!(!app.begin_clean());
    let first = app.clean_item(0, &roots[0], false);
    assert_eq!(first.len(), 2);
    assert!(matches!(&first[0], Deletion::RemoveFile(p) if p == "/a/file1.txt"));
    assert!(app.clean_item(1, &roots[1], false).is_empty());
    app.finish_clean();
    assert_eq!(app.state(), AppState::CleaningDone);
    assert_eq!(app.clean_results()[0].unwrap().size_bytes, 1037);
    assert!(app.clean_results()[1].is_none());
    assert_eq!(app.get_total_files(true), 2);
    assert_eq!(app.get_total_size_bytes(true), 1037);
}

#[test]
fn dry_run_clean_plans_nothing() {
    let (mut app, roots) = scenario();
    app.scan_all(&roots);
    assert!(app.begin_clean());
    assert!(app.clean_item(0, &roots[0], true).is_empty());
    assert_eq!(app.clean_results()[0].unwrap().files, 2);
}

#[test]
fn selection_and_scan_are_refused_after_clean() {
    let (mut app, roots) = scenario();
    app.scan_all(&roots);
    app.begin_clean();
    app.select_all();
    app.deselect_all();
    assert_eq!(flags(&app), vec![true, true]);
    app.finish_clean();
    app.invert_selection();
    app.next();
    assert_eq!(flags(&app), vec![true, true]);
    assert_eq!(app.selected_index(), 0);
    app.scan_all(&roots);
    assert_eq!(app.state(), AppState::CleaningDone);
}

#[test]
fn rescan_overwrites_results() {
    let (mut app, roots) = scenario();
    app.scan_all(&roots);
    let (_, again) = scenario();
    let grown = vec![vec![Some(dir("/a", vec![file("/a", "n", 7)]))], again.into_iter().nth(1).unwrap()];
    app.scan_all(&grown);
    assert_eq!(app.scan_results()[0].unwrap().size_bytes, 7);
}

#[test]
fn cursor_wraps_around() {
    let mut app = App::new(vec![target("a", "/a", true), target("b", "/b", true), target("c", "/c", true)]);
    app.previous();
    assert_eq!(app.selected_index(), 2);
    app.next();
    assert_eq!(app.selected_index(), 0);
    app.next();
    app.next();
    assert_eq!(app.selected_index(), 2);
    app.previous();
    assert_eq!(app.selected_index(), 1);
}

#[test]
fn empty_catalog_cursor_is_still() {
    let mut app = App::new(vec![]);
    app.next();
    app.previous();
    app.toggle_selection();
    assert_eq!(app.selected_index(), 0);
    assert_eq!(app.get_total_files(false), 0);
}

#[test]
fn reset_clears_everything() {
    let (mut app, roots) = scenario();
    app.scan_all(&roots);
    app.should_process_key(10);
    app.reset(vec![target("z", "/z", false)]);
    assert_eq!(app.state(), AppState::Initial);
    assert_eq!(app.cleanup_items().len(), 1);
    assert!(app.scan_results()[0].is_none());
    assert!(app.should_process_key(11));
}

#[test]
fn clean_reports_a_fresh_snapshot_not_the_last_scan() {
    // A clean measures the target again just before deleting; it does not
    // reuse the figures of the most recent scan.
    let (mut app, roots) = scenario();
    app.scan_all(&roots);
    assert!(app.begin_clean());
    let grown = vec![Some(dir("/a", vec![file("/a", "file1.txt", 13), file("/a", "new", 100)]))];
    app.clean_item(0, &grown, false);
    assert_eq!(app.scan_results()[0].unwrap().size_bytes, 1037);
    assert_eq!(app.clean_results()[0].unwrap().size_bytes, 113);
}
