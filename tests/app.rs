use gitti::app::{App, AppMode, Command, FileSource, Key, Mouse, RefreshStep};
use gitti::theme::rgb_to_256;
use gitti::types::{BranchInfo, CommitInfo, DiffHunk, DiffLine, FileChange, LineTag};
use gitti::ui::{scroll_percent, Ui};

fn commit(sha: &str, live: bool) -> CommitInfo {
    CommitInfo {
        sha: sha.to_string(),
        short_sha: sha.chars().take(7).collect(),
        message: format!("m {}", sha),
        author: "a".to_string(),
        is_local_changes: live,
    }
}

fn file(path: &str) -> FileChange {
    FileChange { path: path.to_string(), status: "modified".to_string() }
}

fn hunk(n: usize) -> DiffHunk {
    DiffHunk {
        lines: (0..n)
            .map(|i| DiffLine {
                old_num: Some(i + 1),
                new_num: Some(i + 1),
                tag: LineTag::Equal,
                content: format!("line {}", i),
                highlighted: None,
            })
            .collect(),
    }
}

fn commits(n: usize) -> Vec<CommitInfo> {
    (0..n).map(|i| commit(&format!("c{}", i), false)).collect()
}

fn files(n: usize) -> Vec<FileChange> {
    (0..n).map(|i| file(&format!("f{}.rs", i))).collect()
}

fn in_view(sel: usize, scroll: usize, visible: usize) -> bool {
    scroll <= sel && sel < scroll + visible
}

#[test]
fn layout_of_a_terminal() {
    let ui = Ui::new(120, 40);
    assert_eq!(ui.left_panel_width, 30);
    assert_eq!(ui.commit_panel_height, 13);
    assert_eq!(ui.visible_commits(), 12);
    assert_eq!(ui.visible_files(), 25);
    assert_eq!(ui.visible_diff_lines(), 37);
    assert_eq!(ui.page_size(), 36);
    assert_eq!(Ui::new(60, 8).left_panel_width, 25);
    assert_eq!(Ui::new(80, 9).visible_commits(), 2);
    assert_eq!(Ui::new(400, 8).left_panel_width, 50);
}

#[test]
fn empty_listing_has_nothing_to_show() {
    let app = App::new("main".to_string(), Vec::new(), Ui::new(120, 40));
    assert!(!app.has_files());
    let mut app = App::new("main".to_string(), commits(1), Ui::new(120, 40));
    assert!(!app.set_files(Vec::new()));
    assert!(!app.has_files());
    app.set_files(files(1));
    assert!(app.has_files());
}

#[test]
fn tick_checks_files_only_for_live_changes() {
    let mut app = App::new("main".to_string(), commits(2), Ui::new(120, 40));
    assert_eq!(app.reconcile_commits(commits(2)), RefreshStep::Done);
    let mut live = App::new("main".to_string(), vec![commit("", true)], Ui::new(120, 40));
    assert_eq!(live.reconcile_commits(vec![commit("", true)]), RefreshStep::CheckFiles);
    assert!(!live.diff_check_due());
    live.set_files(files(1));
    assert!(live.diff_check_due());
    app.set_files(files(1));
    assert!(!app.diff_check_due());
}

#[test]
fn tiny_terminals_keep_a_row_per_list() {
    let ui = Ui::new(80, 4);
    assert_eq!(ui.visible_commits(), 1);
    assert_eq!(ui.visible_files(), 1);
    assert_eq!(ui.visible_branches(), 1);
    assert_eq!(ui.visible_diff_lines(), 1);
    assert_eq!(ui.page_size(), 1);
    let mut app = App::new("main".to_string(), commits(3), ui);
    app.select_next_commit();
    app.select_next_commit();
    assert_eq!((app.selected_commit, app.commit_scroll_offset), (2, 2));
}

#[test]
fn commit_selection_stays_in_view() {
    let ui = Ui::new(80, 9);
    let mut app = App::new("main".to_string(), commits(10), ui);
    let visible = ui.visible_commits();
    assert_eq!(visible, 2);
    for _ in 0..12 {
        app.select_next_commit();
        assert!(in_view(app.selected_commit, app.commit_scroll_offset, visible));
    }
    assert_eq!(app.selected_commit, 9);
    assert_eq!(app.commit_scroll_offset, 8);
    assert!(!app.select_next_commit());
    for _ in 0..12 {
        app.select_prev_commit();
        assert!(in_view(app.selected_commit, app.commit_scroll_offset, visible));
    }
    assert_eq!(app.selected_commit, 0);
    assert_eq!(app.commit_scroll_offset, 0);
}

#[test]
fn file_selection_stays_in_view() {
    let ui = Ui::new(80, 9);
    let mut app = App::new("main".to_string(), commits(1), ui);
    assert!(app.set_files(files(7)));
    let visible = ui.visible_files();
    assert_eq!(visible, 4);
    for _ in 0..9 {
        app.select_next_file();
        assert!(in_view(app.selected_file, app.file_scroll_offset, visible));
    }
    assert_eq!((app.selected_file, app.file_scroll_offset), (6, 3));
    app.select_prev_file();
    app.select_prev_file();
    app.select_prev_file();
    app.select_prev_file();
    assert_eq!((app.selected_file, app.file_scroll_offset), (2, 2));
}

#[test]
fn diff_scroll_is_bounded() {
    let ui = Ui::new(80, 10);
    let mut app = App::new("main".to_string(), commits(1), ui);
    app.set_files(files(1));
    app.set_hunks(vec![hunk(5), hunk(4)]);
    assert_eq!(app.total_diff_lines(), 11);
    let max = 11 - ui.visible_diff_lines();
    assert_eq!(max, 4);
    for _ in 0..5 {
        app.scroll_down();
        assert!(app.scroll_offset <= max);
    }
    assert_eq!(app.scroll_offset, 4);
    app.scroll_up();
    assert_eq!(app.scroll_offset, 1);
    app.page_up();
    assert_eq!(app.scroll_offset, 0);
    app.page_down();
    assert_eq!(app.scroll_offset, 4);
    app.set_hunks(vec![hunk(1)]);
    assert_eq!(app.scroll_offset, 0);
    app.page_down();
    assert_eq!(app.scroll_offset, 0);
}

#[test]
fn reconciling_twice_changes_nothing_the_second_time() {
    let mut app = App::new("main".to_string(), commits(2), Ui::new(120, 40));
    app.set_files(files(2));
    app.set_hunks(vec![hunk(2)]);
    app.needs_full_redraw = false;
    let next = vec![commit("new", true), commit("c0", false), commit("c1", false)];
    assert_eq!(app.reconcile_commits(next), RefreshStep::ReloadFiles);
    app.needs_full_redraw = false;
    let again = vec![commit("new", true), commit("c0", false), commit("c1", false)];
    assert_eq!(app.reconcile_commits(again), RefreshStep::CheckFiles);
    assert!(app.diff_check_due());
    assert!(!app.needs_full_redraw);
    assert!(app.reconcile_files(files(3)));
    app.needs_full_redraw = false;
    assert!(!app.reconcile_files(files(3)));
    assert!(app.reconcile_hunks(vec![hunk(3)]));
    app.needs_full_redraw = false;
    assert!(!app.reconcile_hunks(vec![hunk(3)]));
    assert!(!app.needs_full_redraw);
    assert_eq!(app.files.len(), 3);
    assert_eq!(app.diff_hunks[0].lines.len(), 3);
}

#[test]
fn live_entry_disappearing_after_a_commit() {
    let listing = vec![commit("", true), commit("c1", false), commit("c0", false)];
    let mut app = App::new("main".to_string(), listing, Ui::new(120, 40));
    app.set_files(files(2));
    assert!(app.select_next_commit());
    assert!(app.select_next_commit());
    assert_eq!(app.selected_commit, 2);
    let after = vec![commit("c2", false), commit("c1", false)];
    let before_len = app.commits.len();
    let step = app.reconcile_commits(after);
    assert_eq!(step, RefreshStep::ReloadFiles);
    assert_eq!(app.commits.len(), before_len - 1);
    assert_eq!(app.selected_commit, 1);
    assert!(app.needs_full_redraw);
    assert!(app.commit_scroll_offset <= app.selected_commit);
    assert!(app.set_files(files(1)));
    assert_eq!(app.selected_file, 0);
}

#[test]
fn reconcile_to_an_empty_listing_clears_everything() {
    let mut app = App::new("main".to_string(), commits(2), Ui::new(120, 40));
    app.set_files(files(2));
    app.set_hunks(vec![hunk(2)]);
    assert_eq!(app.reconcile_commits(Vec::new()), RefreshStep::ReloadFiles);
    assert_eq!(app.selected_commit, 0);
    assert!(app.files.is_empty());
    assert!(app.diff_hunks.is_empty());
}

#[test]
fn changed_file_list_keeps_selection_in_bounds() {
    let mut app = App::new("main".to_string(), vec![commit("", true)], Ui::new(120, 40));
    app.set_files(files(5));
    for _ in 0..4 {
        app.select_next_file();
    }
    assert!(app.selected_is_live());
    assert!(app.reconcile_files(files(2)));
    assert_eq!(app.selected_file, 1);
}

#[test]
fn clicks_select_the_row_under_them() {
    let ui = Ui::new(120, 40);
    let mut app = App::new("main".to_string(), commits(5), ui);
    app.set_files(files(3));
    assert_eq!(app.click(5, 3), Command::LoadFiles);
    assert_eq!(app.selected_commit, 2);
    assert_eq!(app.click(5, 3), Command::Nothing);
    assert_eq!(app.click(5, 10), Command::Nothing);
    let file_row = ui.commit_panel_height + 1 + 2;
    assert_eq!(app.click(5, file_row), Command::LoadDiff);
    assert_eq!(app.selected_file, 2);
    assert_eq!(app.click(5, file_row + 1), Command::Nothing);
    assert_eq!(app.click(ui.left_panel_width, 3), Command::Nothing);
    assert_eq!(app.handle_mouse(Mouse::Press { column: 5, row: 1 }), Command::LoadFiles);
    assert_eq!(app.selected_commit, 0);
}

#[test]
fn keys_drive_the_state() {
    let mut app = App::new("main".to_string(), commits(3), Ui::new(120, 40));
    app.set_files(files(2));
    assert_eq!(app.handle_key(Key::Right), Command::LoadFiles);
    assert_eq!(app.selected_commit, 1);
    assert_eq!(app.handle_key(Key::Down), Command::LoadDiff);
    assert_eq!(app.handle_key(Key::Down), Command::Nothing);
    assert_eq!(app.handle_key(Key::Char('m')), Command::SetMouse);
    assert!(!app.mouse_enabled);
    assert_eq!(app.handle_mouse(Mouse::ScrollDown), Command::Nothing);
    assert_eq!(app.handle_key(Key::Char('b')), Command::LoadBranches);
    assert_eq!(app.handle_key(Key::Char('q')), Command::Quit);
    assert_eq!(app.handle_key(Key::Control('c')), Command::Quit);
}

#[test]
fn branch_picker_selects_the_current_branch() {
    let mut app = App::new("dev".to_string(), commits(3), Ui::new(120, 40));
    let branches = vec![
        BranchInfo { name: "dev".to_string(), is_current: false, is_remote: false },
        BranchInfo { name: "main".to_string(), is_current: true, is_remote: false },
        BranchInfo { name: "zeta".to_string(), is_current: false, is_remote: false },
    ];
    app.enter_branch_mode(branches);
    assert_eq!(app.mode, AppMode::BranchSelect);
    assert_eq!(app.selected_branch, 1);
    assert_eq!(app.handle_key(Key::Down), Command::Nothing);
    assert_eq!(app.selected_branch, 2);
    assert_eq!(app.handle_key(Key::Enter), Command::LoadCommits);
    assert_eq!(app.mode, AppMode::Normal);
    assert_eq!(app.current_branch, "zeta");
    assert!(app.set_commits(commits(2)));
    assert_eq!(app.selected_commit, 0);
    app.enter_branch_mode(Vec::new());
    assert_eq!(app.handle_key(Key::Esc), Command::Nothing);
    assert_eq!(app.mode, AppMode::Normal);
    assert_eq!(app.current_branch, "zeta");
}

#[test]
fn refresh_runs_only_in_normal_mode_after_the_interval() {
    let mut app = App::new("main".to_string(), commits(1), Ui::new(120, 40));
    assert!(!app.refresh_due(999));
    assert!(app.refresh_due(1000));
    app.enter_branch_mode(Vec::new());
    assert!(!app.refresh_due(5000));
}

#[test]
fn scroll_percentage() {
    assert_eq!(scroll_percent(0, 10, 20), None);
    assert_eq!(scroll_percent(0, 100, 20), Some(20));
    assert_eq!(scroll_percent(90, 100, 20), Some(100));
}

#[test]
fn palette_indices() {
    assert_eq!(rgb_to_256(0, 0, 0), 16);
    assert_eq!(rgb_to_256(255, 255, 255), 231);
    assert_eq!(rgb_to_256(128, 128, 128), 244);
    assert_eq!(rgb_to_256(255, 0, 0), 196);
    assert_eq!(rgb_to_256(0, 255, 0), 46);
    assert_eq!(rgb_to_256(100, 150, 200), 16 + 36 + 6 * 2 + 4);
    assert_eq!(rgb_to_256(248, 248, 248), 255);
    assert_eq!(rgb_to_256(238, 238, 238), 255);
    assert_eq!(rgb_to_256(8, 8, 8), 232);
}

#[test]
fn file_source_follows_the_selected_commit() {
    let app = App::new("main".to_string(), Vec::new(), Ui::new(120, 40));
    assert_eq!(app.file_source(), FileSource::Nothing);
    let mut app = App::new("main".to_string(), vec![commit("", true), commit("c0", false)], Ui::new(120, 40));
    assert_eq!(app.file_source(), FileSource::LiveChanges);
    app.select_next_commit();
    assert_eq!(app.file_source(), FileSource::Commit);
}
