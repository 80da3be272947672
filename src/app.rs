use vstd::prelude::*;

use crate::content::same_text;
use crate::types::{
    commits_view, files_view, hunks_view, BranchInfo, CommitInfo, CommitView, DiffHunk, DiffLine,
    FileChange, LineView, Span,
};
use crate::ui::Ui;

verus! {

/// Least time between two refresh ticks, in milliseconds.
pub const REFRESH_INTERVAL_MS: u128 = 1000;

/// Most commits listed for a branch.
pub const MAX_COMMITS: usize = 50;

/// Lines that one step of scrolling moves.
pub const SCROLL_STEP: usize = 3;

/// Whether the branch picker is open.
#[derive(Clone, Copy, Debug, PartialEq, Eq, Structural)]
pub enum AppMode {
    Normal,
    BranchSelect,
}

/// The viewer's state: the lists that are shown, what is selected in each, and how
/// far each is scrolled.
#[derive(Debug)]
pub struct App {
    pub mode: AppMode,
    pub branches: Vec<BranchInfo>,
    pub selected_branch: usize,
    pub branch_scroll_offset: usize,
    pub current_branch: String,
    pub commits: Vec<CommitInfo>,
    pub selected_commit: usize,
    pub commit_scroll_offset: usize,
    pub files: Vec<FileChange>,
    pub selected_file: usize,
    pub file_scroll_offset: usize,
    pub diff_hunks: Vec<DiffHunk>,
    pub scroll_offset: usize,
    pub ui: Ui,
    pub needs_full_redraw: bool,
    pub mouse_enabled: bool,
}

/// An index into a list of `len` items: inside it, or 0 when it is empty.
pub open spec fn index_ok(sel: int, len: int) -> bool {
    if len == 0 {
        sel == 0
    } else {
        0 <= sel < len
    }
}

/// The selected item of a non-empty list lies in its scrolled window.
pub open spec fn in_view(sel: int, scroll: int, visible: int, len: int) -> bool {
    len > 0 ==> scroll <= sel < scroll + visible
}

/// The least change of `scroll` that brings `sel` into a window of `visible` rows.
pub open spec fn into_view(sel: int, scroll: int, visible: int) -> int {
    if sel < scroll {
        sel
    } else if sel >= scroll + visible {
        sel - visible + 1
    } else {
        scroll
    }
}

/// Rows that the diff takes: each hunk's lines and one separator row per hunk.
pub open spec fn total_lines(h: Seq<Seq<LineView>>) -> nat
    decreases h.len(),
{
    if h.len() == 0 {
        0
    } else {
        total_lines(h.drop_last()) + h.last().len() + 1
    }
}

/// The row count of a diff as a `usize`, held at the largest value.
pub open spec fn total_lines_capped(h: Seq<Seq<LineView>>) -> int {
    if total_lines(h) > usize::MAX {
        usize::MAX as int
    } else {
        total_lines(h) as int
    }
}

/// The furthest the diff can scroll: its rows less the rows of the pane, or 0.
pub open spec fn max_scroll_of(h: Seq<Seq<LineView>>, visible: int) -> int {
    if total_lines_capped(h) > visible {
        total_lines_capped(h) - visible
    } else {
        0
    }
}

/// Whether two commit lists differ, by length or by the id or the live flag of an
/// entry.
pub open spec fn commits_differ(a: Seq<CommitView>, b: Seq<CommitView>) -> bool {
    a.len() != b.len() || exists|k: int|
        #![trigger a[k]]
        0 <= k < a.len() && (a[k].sha != b[k].sha || a[k].is_local_changes
            != b[k].is_local_changes)
}

/// Whether two file lists differ, by length or by a path.
pub open spec fn files_differ(a: Seq<(Seq<char>, Seq<char>)>, b: Seq<(Seq<char>, Seq<char>)>) -> bool {
    a.len() != b.len() || exists|k: int| 0 <= k < a.len() && #[trigger] a[k].0 != b[k].0
}

/// What the caller is to do after an input: load data the state now asks for, or
/// end.
#[derive(Clone, Copy, Debug, PartialEq, Eq, Structural)]
pub enum Command {
    /// Nothing to load.
    Nothing,
    /// Load the changed files of the selected commit and hand them to `set_files`.
    LoadFiles,
    /// Load the diff of the selected file and hand it to `set_hunks`.
    LoadDiff,
    /// Load the branch list and hand it to `enter_branch_mode`.
    LoadBranches,
    /// Load the commit list of `current_branch` and hand it to `set_commits`.
    LoadCommits,
    /// Turn mouse reporting on or off, as `mouse_enabled` now says.
    SetMouse,
    /// Leave the viewer.
    Quit,
}

/// Where the changed files of the selected commit come from.
#[derive(Clone, Copy, Debug, PartialEq, Eq, Structural)]
pub enum FileSource {
    /// No commit is listed: there are no files.
    Nothing,
    /// The uncommitted changes: the working tree and the index against the head.
    LiveChanges,
    /// The selected commit against its parent.
    Commit,
}

/// How a refresh tick goes on after its commit list was taken in.
#[derive(Clone, Copy, Debug, PartialEq, Eq, Structural)]
pub enum RefreshStep {
    /// The commit list changed: load the selected commit's files and hand them to
    /// `set_files`; the tick ends there.
    ReloadFiles,
    /// Query the uncommitted changes' file list for `reconcile_files`, then, where
    /// `diff_check_due` holds, the selected file's diff for `reconcile_hunks`.
    CheckFiles,
    /// Nothing more to do in this tick.
    Done,
}

/// A key press.
#[derive(Clone, Copy, Debug, PartialEq, Eq, Structural)]
pub enum Key {
    Char(char),
    Control(char),
    Up,
    Down,
    Left,
    Right,
    Enter,
    Esc,
    PageUp,
    PageDown,
    Other,
}

/// A mouse event.
#[derive(Clone, Copy, Debug, PartialEq, Eq, Structural)]
pub enum Mouse {
    ScrollUp,
    ScrollDown,
    Press { column: u16, row: u16 },
    Other,
}

fn scroll_to_show(sel: usize, scroll: usize, visible: usize) -> (r: usize)
    requires
        visible >= 1,
    ensures
        r == into_view(sel as int, scroll as int, visible as int),
        r <= sel < r + visible,
{
    if sel < scroll {
        sel
    } else if sel - scroll >= visible {
        sel - visible + 1
    } else {
        scroll
    }
}

fn clamp_index(sel: usize, len: usize) -> (r: usize)
    ensures
        index_ok(r as int, len as int),
        len > 0 ==> r == (if sel < len { sel } else { (len - 1) as usize }),
{
    if len == 0 {
        0
    } else if sel < len {
        sel
    } else {
        len - 1
    }
}

proof fn lemma_total_lines_push(h: Seq<Seq<LineView>>, x: Seq<LineView>)
    ensures
        total_lines(h.push(x)) == total_lines(h) + x.len() + 1,
{
    assert(h.push(x).drop_last() =~= h);
}

fn diff_line_count(hunks: &Vec<DiffHunk>) -> (r: usize)
    ensures
        r == total_lines_capped(hunks_view(hunks@)),
{
    let ghost h = hunks_view(hunks@);
    let mut total: usize = 0;
    let mut i: usize = 0;
    while i < hunks.len()
        invariant
            h == hunks_view(hunks@),
            i <= hunks@.len(),
            total == total_lines_capped(h.subrange(0, i as int)),
        decreases hunks@.len() - i,
    {
        let n = hunks[i].lines.len();
        proof {
            assert(h.subrange(0, i + 1) =~= h.subrange(0, i as int).push(h[i as int]));
            lemma_total_lines_push(h.subrange(0, i as int), h[i as int]);
        }
        if total == usize::MAX || usize::MAX - total <= n {
            total = usize::MAX;
        } else {
            total = total + n + 1;
        }
        i += 1;
    }
    assert(h.subrange(0, hunks@.len() as int) =~= h);
    total
}

fn spans_eq(a: &Vec<Span>, b: &Vec<Span>) -> (r: bool)
    ensures
        r == (crate::types::spans_view(a@) == crate::types::spans_view(b@)),
{
    if a.len() != b.len() {
        proof {
            assert(crate::types::spans_view(a@).len() != crate::types::spans_view(b@).len());
        }
        return false;
    }
    let mut i: usize = 0;
    while i < a.len()
        invariant
            a@.len() == b@.len(),
            i <= a@.len(),
            forall|k: int| 0 <= k < i ==> #[trigger] a@[k]@ == b@[k]@,
        decreases a@.len() - i,
    {
        let x = &a[i];
        let y = &b[i];
        if !(x.r == y.r && x.g == y.g && x.b == y.b && same_text(x.text.as_str(), y.text.as_str())) {
            proof {
                assert(crate::types::spans_view(a@)[i as int] != crate::types::spans_view(b@)[i as int]);
            }
            return false;
        }
        i += 1;
    }
    assert(crate::types::spans_view(a@) =~= crate::types::spans_view(b@));
    true
}

fn line_eq(a: &DiffLine, b: &DiffLine) -> (r: bool)
    ensures
        r == (a@ == b@),
{
    if a.old_num != b.old_num || a.new_num != b.new_num || a.tag != b.tag {
        return false;
    }
    if !same_text(a.content.as_str(), b.content.as_str()) {
        return false;
    }
    match (&a.highlighted, &b.highlighted) {
        (Some(x), Some(y)) => spans_eq(x, y),
        (None, None) => true,
        _ => false,
    }
}

fn hunk_eq(a: &DiffHunk, b: &DiffHunk) -> (r: bool)
    ensures
        r == (a@ == b@),
{
    if a.lines.len() != b.lines.len() {
        proof {
            assert(a@.len() != b@.len());
        }
        return false;
    }
    let mut i: usize = 0;
    while i < a.lines.len()
        invariant
            a.lines@.len() == b.lines@.len(),
            i <= a.lines@.len(),
            forall|k: int| 0 <= k < i ==> #[trigger] a.lines@[k]@ == b.lines@[k]@,
        decreases a.lines@.len() - i,
    {
        if !line_eq(&a.lines[i], &b.lines[i]) {
            proof {
                assert(a@[i as int] != b@[i as int]);
            }
            return false;
        }
        i += 1;
    }
    assert(a@ =~= b@);
    true
}

/// Whether two diffs are equal line for line.
pub fn hunks_equal(a: &Vec<DiffHunk>, b: &Vec<DiffHunk>) -> (r: bool)
    ensures
        r == (hunks_view(a@) == hunks_view(b@)),
{
    if a.len() != b.len() {
        proof {
            assert(hunks_view(a@).len() != hunks_view(b@).len());
        }
        return false;
    }
    let mut i: usize = 0;
    while i < a.len()
        invariant
            a@.len() == b@.len(),
            i <= a@.len(),
            forall|k: int| 0 <= k < i ==> #[trigger] a@[k]@ == b@[k]@,
        decreases a@.len() - i,
    {
        if !hunk_eq(&a[i], &b[i]) {
            proof {
                assert(hunks_view(a@)[i as int] != hunks_view(b@)[i as int]);
            }
            return false;
        }
        i += 1;
    }
    assert(hunks_view(a@) =~= hunks_view(b@));
    true
}

/// Whether two commit lists differ, by length or by the id or the live flag of an
/// entry.
pub fn commits_changed(a: &Vec<CommitInfo>, b: &Vec<CommitInfo>) -> (r: bool)
    ensures
        r == commits_differ(commits_view(a@), commits_view(b@)),
{
    let ghost av = commits_view(a@);
    let ghost bv = commits_view(b@);
    if a.len() != b.len() {
        return true;
    }
    let mut i: usize = 0;
    while i < a.len()
        invariant
            av == commits_view(a@),
            bv == commits_view(b@),
            a@.len() == b@.len(),
            i <= a@.len(),
            forall|k: int|
                #![trigger av[k]]
                0 <= k < i ==> av[k].sha == bv[k].sha && av[k].is_local_changes
                    == bv[k].is_local_changes,
        decreases a@.len() - i,
    {
        proof {
            assert(av[i as int] == a@[i as int]@);
            assert(bv[i as int] == b@[i as int]@);
        }
        let same_id = same_text(a[i].sha.as_str(), b[i].sha.as_str());
        let same_flag = a[i].is_local_changes == b[i].is_local_changes;
        assert(same_id == (av[i as int].sha == bv[i as int].sha));
        assert(same_flag == (av[i as int].is_local_changes == bv[i as int].is_local_changes));
        if !same_id || !same_flag {
            proof {
                assert(av[i as int].sha != bv[i as int].sha || av[i as int].is_local_changes
                    != bv[i as int].is_local_changes);
            }
            return true;
        }
        i += 1;
    }
    false
}

/// Whether two file lists differ, by length or by a path.
pub fn files_changed(a: &Vec<FileChange>, b: &Vec<FileChange>) -> (r: bool)
    ensures
        r == files_differ(files_view(a@), files_view(b@)),
{
    let ghost av = files_view(a@);
    let ghost bv = files_view(b@);
    if a.len() != b.len() {
        return true;
    }
    let mut i: usize = 0;
    while i < a.len()
        invariant
            av == files_view(a@),
            bv == files_view(b@),
            a@.len() == b@.len(),
            i <= a@.len(),
            forall|k: int| 0 <= k < i ==> #[trigger] av[k].0 == bv[k].0,
        decreases a@.len() - i,
    {
        proof {
            assert(av[i as int] == a@[i as int]@);
            assert(bv[i as int] == b@[i as int]@);
        }
        if !same_text(a[i].path.as_str(), b[i].path.as_str()) {
            proof {
                assert(av[i as int].0 != bv[i as int].0);
            }
            return true;
        }
        i += 1;
    }
    false
}

/// The index of the first branch marked current, or 0 when none is.
pub open spec fn first_current(b: Seq<BranchInfo>) -> int {
    if exists|k: int| 0 <= k < b.len() && (#[trigger] b[k]).is_current {
        choose|k: int|
            0 <= k < b.len() && (#[trigger] b[k]).is_current && forall|m: int|
                0 <= m < k ==> !(#[trigger] b[m]).is_current
    } else {
        0
    }
}

proof fn lemma_first_current(b: Seq<BranchInfo>, i: int)
    requires
        0 <= i < b.len(),
        b[i].is_current,
        forall|m: int| 0 <= m < i ==> !(#[trigger] b[m]).is_current,
    ensures
        first_current(b) == i,
{
    let k = choose|k: int|
        0 <= k < b.len() && (#[trigger] b[k]).is_current && forall|m: int|
            0 <= m < k ==> !(#[trigger] b[m]).is_current;
    assert(0 <= i < b.len() && b[i].is_current && forall|m: int|
        0 <= m < i ==> !(#[trigger] b[m]).is_current);
    if k < i {
        assert(!b[k].is_current);
    } else if k > i {
        assert(!b[i].is_current);
    }
}

proof fn lemma_no_current(b: Seq<BranchInfo>)
    requires
        forall|m: int| 0 <= m < b.len() ==> !(#[trigger] b[m]).is_current,
    ensures
        first_current(b) == 0,
{
}

/// The commit under a click on `row` of the commit list.
pub open spec fn clicked_commit(a: App, row: u16) -> usize {
    (row - 1 + a.commit_scroll_offset) as usize
}

/// The file under a click on `row` of the file list.
pub open spec fn clicked_file(a: App, row: u16) -> usize {
    (row - a.ui.commit_panel_height - 1 + a.file_scroll_offset) as usize
}

/// What a click at `(column, row)` asks for.
pub open spec fn click_command(a: App, column: u16, row: u16) -> Command {
    let panel = a.ui.commit_panel_height;
    if column >= a.ui.left_panel_width {
        Command::Nothing
    } else if 1 <= row < panel {
        let k = row - 1 + a.commit_scroll_offset;
        if k < a.commits@.len() && k != a.selected_commit {
            Command::LoadFiles
        } else {
            Command::Nothing
        }
    } else if row >= panel + 1 {
        let k = row - panel - 1 + a.file_scroll_offset;
        if row - panel - 1 < a.ui.file_rows() && k < a.files@.len() && k != a.selected_file {
            Command::LoadDiff
        } else {
            Command::Nothing
        }
    } else {
        Command::Nothing
    }
}

/// A selection moved one item back, where there is one.
pub open spec fn stepped_back(sel: usize) -> usize {
    if sel > 0 {
        (sel - 1) as usize
    } else {
        sel
    }
}

/// A selection moved one item forward in a list of `len` items, where there is one.
pub open spec fn stepped_forward(sel: usize, len: nat) -> usize {
    if sel + 1 < len {
        (sel + 1) as usize
    } else {
        sel
    }
}

/// A scroll position moved `step` lines up, stopping at the top.
pub open spec fn scrolled_up(off: int, step: int) -> int {
    if off >= step {
        off - step
    } else {
        0
    }
}

/// A scroll position moved `step` lines down, stopping at `max`.
pub open spec fn scrolled_down(off: int, step: int, max: int) -> int {
    if off + step <= max {
        off + step
    } else {
        max
    }
}

/// What a key press asks for.
pub open spec fn key_command(a: App, key: Key) -> Command {
    match a.mode {
        AppMode::BranchSelect => if key == Key::Enter && a.branches@.len() > 0 {
            Command::LoadCommits
        } else {
            Command::Nothing
        },
        AppMode::Normal => match key {
            Key::Char('q') => Command::Quit,
            Key::Control('c') => Command::Quit,
            Key::Char('b') => Command::LoadBranches,
            Key::Left => if a.selected_commit > 0 {
                Command::LoadFiles
            } else {
                Command::Nothing
            },
            Key::Right => if a.selected_commit + 1 < a.commits@.len() {
                Command::LoadFiles
            } else {
                Command::Nothing
            },
            Key::Up => if a.selected_file > 0 {
                Command::LoadDiff
            } else {
                Command::Nothing
            },
            Key::Down => if a.selected_file + 1 < a.files@.len() {
                Command::LoadDiff
            } else {
                Command::Nothing
            },
            Key::Char('m') => Command::SetMouse,
            _ => Command::Nothing,
        },
    }
}

/// The mode after a key press: the picker closes on Enter, Esc, `q` or `b`.
pub open spec fn key_mode(a: App, key: Key) -> AppMode {
    match a.mode {
        AppMode::BranchSelect => match key {
            Key::Char('q') => AppMode::Normal,
            Key::Char('b') => AppMode::Normal,
            Key::Esc => AppMode::Normal,
            Key::Enter => AppMode::Normal,
            _ => AppMode::BranchSelect,
        },
        AppMode::Normal => AppMode::Normal,
    }
}

/// What a mouse event asks for.
pub open spec fn mouse_command(a: App, event: Mouse) -> Command {
    if !(a.mouse_enabled && a.mode == AppMode::Normal) {
        Command::Nothing
    } else {
        match event {
            Mouse::Press { column, row } => click_command(a, column, row),
            _ => Command::Nothing,
        }
    }
}

impl App {
    /// The state's invariant: every selection lies in its list and in its list's
    /// scrolled window, and the diff is scrolled no further than its end allows.
    pub open spec fn wf(&self) -> bool {
        &&& index_ok(self.selected_commit as int, self.commits@.len() as int)
        &&& index_ok(self.selected_file as int, self.files@.len() as int)
        &&& index_ok(self.selected_branch as int, self.branches@.len() as int)
        &&& in_view(
            self.selected_commit as int,
            self.commit_scroll_offset as int,
            self.ui.commit_rows(),
            self.commits@.len() as int,
        )
        &&& in_view(
            self.selected_file as int,
            self.file_scroll_offset as int,
            self.ui.file_rows(),
            self.files@.len() as int,
        )
        &&& in_view(
            self.selected_branch as int,
            self.branch_scroll_offset as int,
            self.ui.branch_rows(),
            self.branches@.len() as int,
        )
        &&& self.scroll_offset <= self.max_scroll()
    }

    /// The furthest the diff can scroll.
    pub open spec fn max_scroll(&self) -> int {
        max_scroll_of(hunks_view(self.diff_hunks@), self.ui.diff_rows())
    }

    /// Whether the selected commit is the pseudo-commit of uncommitted changes.
    pub open spec fn live_selected(&self) -> bool {
        self.commits@.len() > 0 && self.commits@[self.selected_commit as int].is_local_changes
    }

    /// A viewer on `current_branch` with its commit list, the first commit selected,
    /// and no files loaded yet.
    pub fn new(current_branch: String, commits: Vec<CommitInfo>, ui: Ui) -> (r: App)
        ensures
            r.wf(),
            r.mode == AppMode::Normal,
            r.current_branch@ == current_branch@,
            commits_view(r.commits@) == commits_view(commits@),
            r.selected_commit == 0,
            r.commit_scroll_offset == 0,
            r.files@.len() == 0,
            r.diff_hunks@.len() == 0,
            r.branches@.len() == 0,
            r.scroll_offset == 0,
            r.needs_full_redraw,
            r.mouse_enabled,
            r.ui == ui,
    {
        App {
            mode: AppMode::Normal,
            branches: Vec::new(),
            selected_branch: 0,
            branch_scroll_offset: 0,
            current_branch,
            commits,
            selected_commit: 0,
            commit_scroll_offset: 0,
            files: Vec::new(),
            selected_file: 0,
            file_scroll_offset: 0,
            diff_hunks: Vec::new(),
            scroll_offset: 0,
            ui,
            needs_full_redraw: true,
            mouse_enabled: true,
        }
    }

    /// Whether there is anything to show: the changed-file list is not empty.
    pub fn has_files(&self) -> (r: bool)
        ensures
            r == (self.files@.len() > 0),
    {
        self.files.len() > 0
    }

    /// Whether the selected commit is the pseudo-commit of uncommitted changes.
    pub fn selected_is_live(&self) -> (r: bool)
        requires
            self.wf(),
        ensures
            r == self.live_selected(),
    {
        self.commits.len() > 0 && self.commits[self.selected_commit].is_local_changes
    }

    /// Where the changed files of the selected commit are to be read from.
    pub fn file_source(&self) -> (r: FileSource)
        requires
            self.wf(),
        ensures
            r == if self.commits@.len() == 0 {
                FileSource::Nothing
            } else if self.live_selected() {
                FileSource::LiveChanges
            } else {
                FileSource::Commit
            },
    {
        if self.commits.len() == 0 {
            FileSource::Nothing
        } else if self.commits[self.selected_commit].is_local_changes {
            FileSource::LiveChanges
        } else {
            FileSource::Commit
        }
    }

    /// The rows that the diff takes, each hunk with its separator row.
    pub fn total_diff_lines(&self) -> (r: usize)
        ensures
            r == total_lines_capped(hunks_view(self.diff_hunks@)),
    {
        diff_line_count(&self.diff_hunks)
    }

    fn max_scroll_now(&self) -> (r: usize)
        ensures
            r == self.max_scroll(),
    {
        let total = diff_line_count(&self.diff_hunks);
        let visible = self.ui.visible_diff_lines();
        if total > visible {
            total - visible
        } else {
            0
        }
    }

    /// Show the changed files of the selected commit: the first one is selected and
    /// the diff is emptied until `set_hunks` brings the new one. Returns whether
    /// there is a file whose diff is to be loaded.
    pub fn set_files(&mut self, files: Vec<FileChange>) -> (load: bool)
        requires
            old(self).wf(),
        ensures
            *final(self) == (App { files: final(self).files, selected_file: final(self).selected_file, file_scroll_offset: final(self).file_scroll_offset, diff_hunks: final(self).diff_hunks, scroll_offset: final(self).scroll_offset, needs_full_redraw: final(self).needs_full_redraw, ..*old(self) }),
            final(self).wf(),
            load == (files@.len() > 0),
            files_view(final(self).files@) == files_view(files@),
            final(self).selected_file == 0,
            final(self).file_scroll_offset == 0,
            final(self).diff_hunks@.len() == 0,
            final(self).scroll_offset == 0,
            final(self).needs_full_redraw,
            final(self).mode == old(self).mode,
            final(self).selected_commit == old(self).selected_commit,
            final(self).commit_scroll_offset == old(self).commit_scroll_offset,
            commits_view(final(self).commits@) == commits_view(old(self).commits@),
    {
        let load = files.len() > 0;
        self.files = files;
        self.selected_file = 0;
        self.file_scroll_offset = 0;
        self.diff_hunks = Vec::new();
        self.scroll_offset = 0;
        self.needs_full_redraw = true;
        load
    }

    /// Show a new diff for the selected file, scrolled to its top.
    pub fn set_hunks(&mut self, hunks: Vec<DiffHunk>)
        requires
            old(self).wf(),
        ensures
            *final(self) == (App { diff_hunks: final(self).diff_hunks, scroll_offset: final(self).scroll_offset, needs_full_redraw: final(self).needs_full_redraw, ..*old(self) }),
            final(self).wf(),
            hunks_view(final(self).diff_hunks@) == hunks_view(hunks@),
            final(self).scroll_offset == 0,
            final(self).needs_full_redraw,
            final(self).selected_file == old(self).selected_file,
            final(self).file_scroll_offset == old(self).file_scroll_offset,
            files_view(final(self).files@) == files_view(old(self).files@),
            final(self).selected_commit == old(self).selected_commit,
            commits_view(final(self).commits@) == commits_view(old(self).commits@),
    {
        self.diff_hunks = hunks;
        self.scroll_offset = 0;
        self.needs_full_redraw = true;
    }

    /// Show the commit list of the branch just picked, its first commit selected.
    /// Returns whether there is a commit whose files are to be loaded; when there is
    /// none, the file list and the diff are emptied.
    pub fn set_commits(&mut self, commits: Vec<CommitInfo>) -> (load: bool)
        requires
            old(self).wf(),
        ensures
            final(self).wf(),
            load == (commits@.len() > 0),
            commits_view(final(self).commits@) == commits_view(commits@),
            final(self).selected_commit == 0,
            final(self).commit_scroll_offset == 0,
            !load ==> final(self).files@.len() == 0 && final(self).diff_hunks@.len() == 0,
            final(self).needs_full_redraw,
    {
        let load = commits.len() > 0;
        self.commits = commits;
        self.selected_commit = 0;
        self.commit_scroll_offset = 0;
        if !load {
            self.files = Vec::new();
            self.selected_file = 0;
            self.file_scroll_offset = 0;
            self.diff_hunks = Vec::new();
            self.scroll_offset = 0;
        }
        self.needs_full_redraw = true;
        load
    }

    /// Select the commit above. Returns whether the selection moved, in which case
    /// the files of the new commit are to be loaded.
    pub fn select_prev_commit(&mut self) -> (moved: bool)
        requires
            old(self).wf(),
        ensures
            *final(self) == (App { selected_commit: final(self).selected_commit, commit_scroll_offset: final(self).commit_scroll_offset, ..*old(self) }),
            final(self).selected_file == old(self).selected_file,
            final(self).scroll_offset == old(self).scroll_offset,
            final(self).selected_branch == old(self).selected_branch,
            final(self).current_branch == old(self).current_branch,
            final(self).mode == old(self).mode,
            final(self).branches == old(self).branches,
            final(self).mouse_enabled == old(self).mouse_enabled,
            final(self).wf(),
            moved == (old(self).selected_commit > 0),
            final(self).selected_commit == if moved {
                (old(self).selected_commit - 1) as usize
            } else {
                old(self).selected_commit
            },
            final(self).commit_scroll_offset == if moved {
                into_view(
                    final(self).selected_commit as int,
                    old(self).commit_scroll_offset as int,
                    old(self).ui.commit_rows(),
                ) as usize
            } else {
                old(self).commit_scroll_offset
            },
            commits_view(final(self).commits@) == commits_view(old(self).commits@),
            final(self).files == old(self).files,
            final(self).diff_hunks == old(self).diff_hunks,
            final(self).ui == old(self).ui,
    {
        if self.selected_commit > 0 {
            self.selected_commit = self.selected_commit - 1;
            self.commit_scroll_offset = scroll_to_show(
                self.selected_commit,
                self.commit_scroll_offset,
                self.ui.visible_commits(),
            );
            true
        } else {
            false
        }
    }

    /// Select the commit below. Returns whether the selection moved, in which case
    /// the files of the new commit are to be loaded.
    pub fn select_next_commit(&mut self) -> (moved: bool)
        requires
            old(self).wf(),
        ensures
            *final(self) == (App { selected_commit: final(self).selected_commit, commit_scroll_offset: final(self).commit_scroll_offset, ..*old(self) }),
            final(self).selected_file == old(self).selected_file,
            final(self).scroll_offset == old(self).scroll_offset,
            final(self).selected_branch == old(self).selected_branch,
            final(self).current_branch == old(self).current_branch,
            final(self).mode == old(self).mode,
            final(self).branches == old(self).branches,
            final(self).mouse_enabled == old(self).mouse_enabled,
            final(self).wf(),
            moved == (old(self).selected_commit + 1 < old(self).commits@.len()),
            final(self).selected_commit == if moved {
                (old(self).selected_commit + 1) as usize
            } else {
                old(self).selected_commit
            },
            final(self).commit_scroll_offset == if moved {
                into_view(
                    final(self).selected_commit as int,
                    old(self).commit_scroll_offset as int,
                    old(self).ui.commit_rows(),
                ) as usize
            } else {
                old(self).commit_scroll_offset
            },
            commits_view(final(self).commits@) == commits_view(old(self).commits@),
            final(self).files == old(self).files,
            final(self).diff_hunks == old(self).diff_hunks,
            final(self).ui == old(self).ui,
    {
        if self.commits.len() > 0 && self.selected_commit < self.commits.len() - 1 {
            self.selected_commit = self.selected_commit + 1;
            self.commit_scroll_offset = scroll_to_show(
                self.selected_commit,
                self.commit_scroll_offset,
                self.ui.visible_commits(),
            );
            true
        } else {
            false
        }
    }

    /// Select the file above. Returns whether the selection moved, in which case the
    /// diff of the new file is to be loaded.
    pub fn select_prev_file(&mut self) -> (moved: bool)
        requires
            old(self).wf(),
        ensures
            *final(self) == (App { selected_file: final(self).selected_file, file_scroll_offset: final(self).file_scroll_offset, ..*old(self) }),
            final(self).scroll_offset == old(self).scroll_offset,
            final(self).selected_branch == old(self).selected_branch,
            final(self).current_branch == old(self).current_branch,
            final(self).mode == old(self).mode,
            final(self).branches == old(self).branches,
            final(self).mouse_enabled == old(self).mouse_enabled,
            final(self).wf(),
            moved == (old(self).selected_file > 0),
            final(self).selected_file == if moved {
                (old(self).selected_file - 1) as usize
            } else {
                old(self).selected_file
            },
            final(self).file_scroll_offset == if moved {
                into_view(
                    final(self).selected_file as int,
                    old(self).file_scroll_offset as int,
                    old(self).ui.file_rows(),
                ) as usize
            } else {
                old(self).file_scroll_offset
            },
            files_view(final(self).files@) == files_view(old(self).files@),
            final(self).selected_commit == old(self).selected_commit,
            final(self).diff_hunks == old(self).diff_hunks,
            final(self).ui == old(self).ui,
    {
        if self.selected_file > 0 {
            self.selected_file = self.selected_file - 1;
            self.file_scroll_offset = scroll_to_show(
                self.selected_file,
                self.file_scroll_offset,
                self.ui.visible_files(),
            );
            true
        } else {
            false
        }
    }

    /// Select the file below. Returns whether the selection moved, in which case the
    /// diff of the new file is to be loaded.
    pub fn select_next_file(&mut self) -> (moved: bool)
        requires
            old(self).wf(),
        ensures
            *final(self) == (App { selected_file: final(self).selected_file, file_scroll_offset: final(self).file_scroll_offset, ..*old(self) }),
            final(self).scroll_offset == old(self).scroll_offset,
            final(self).selected_branch == old(self).selected_branch,
            final(self).current_branch == old(self).current_branch,
            final(self).mode == old(self).mode,
            final(self).branches == old(self).branches,
            final(self).mouse_enabled == old(self).mouse_enabled,
            final(self).wf(),
            moved == (old(self).selected_file + 1 < old(self).files@.len()),
            final(self).selected_file == if moved {
                (old(self).selected_file + 1) as usize
            } else {
                old(self).selected_file
            },
            final(self).file_scroll_offset == if moved {
                into_view(
                    final(self).selected_file as int,
                    old(self).file_scroll_offset as int,
                    old(self).ui.file_rows(),
                ) as usize
            } else {
                old(self).file_scroll_offset
            },
            files_view(final(self).files@) == files_view(old(self).files@),
            final(self).selected_commit == old(self).selected_commit,
            final(self).diff_hunks == old(self).diff_hunks,
            final(self).ui == old(self).ui,
    {
        if self.files.len() > 0 && self.selected_file < self.files.len() - 1 {
            self.selected_file = self.selected_file + 1;
            self.file_scroll_offset = scroll_to_show(
                self.selected_file,
                self.file_scroll_offset,
                self.ui.visible_files(),
            );
            true
        } else {
            false
        }
    }

    /// Scroll the diff up by a small step, stopping at the top.
    pub fn scroll_up(&mut self)
        requires
            old(self).wf(),
        ensures
            *final(self) == (App { scroll_offset: final(self).scroll_offset, ..*old(self) }),
            final(self).selected_commit == old(self).selected_commit,
            final(self).selected_file == old(self).selected_file,
            final(self).selected_branch == old(self).selected_branch,
            final(self).current_branch == old(self).current_branch,
            final(self).mode == old(self).mode,
            final(self).branches == old(self).branches,
            final(self).mouse_enabled == old(self).mouse_enabled,
            final(self).wf(),
            final(self).scroll_offset == if old(self).scroll_offset >= SCROLL_STEP {
                (old(self).scroll_offset - SCROLL_STEP) as usize
            } else {
                0
            },
            final(self).diff_hunks == old(self).diff_hunks,
    {
        self.scroll_offset = if self.scroll_offset >= SCROLL_STEP {
            self.scroll_offset - SCROLL_STEP
        } else {
            0
        };
    }

    /// Scroll the diff down by a small step, stopping at its end.
    pub fn scroll_down(&mut self)
        requires
            old(self).wf(),
        ensures
            *final(self) == (App { scroll_offset: final(self).scroll_offset, ..*old(self) }),
            final(self).selected_commit == old(self).selected_commit,
            final(self).selected_file == old(self).selected_file,
            final(self).selected_branch == old(self).selected_branch,
            final(self).current_branch == old(self).current_branch,
            final(self).mode == old(self).mode,
            final(self).branches == old(self).branches,
            final(self).mouse_enabled == old(self).mouse_enabled,
            final(self).wf(),
            final(self).scroll_offset == if old(self).scroll_offset + SCROLL_STEP
                <= old(self).max_scroll() {
                old(self).scroll_offset + SCROLL_STEP
            } else {
                old(self).max_scroll()
            },
            final(self).diff_hunks == old(self).diff_hunks,
    {
        let max = self.max_scroll_now();
        self.scroll_offset = if max - self.scroll_offset >= SCROLL_STEP {
            self.scroll_offset + SCROLL_STEP
        } else {
            max
        };
    }

    /// Scroll the diff up by a page, stopping at the top.
    pub fn page_up(&mut self)
        requires
            old(self).wf(),
        ensures
            *final(self) == (App { scroll_offset: final(self).scroll_offset, ..*old(self) }),
            final(self).selected_commit == old(self).selected_commit,
            final(self).selected_file == old(self).selected_file,
            final(self).selected_branch == old(self).selected_branch,
            final(self).current_branch == old(self).current_branch,
            final(self).mode == old(self).mode,
            final(self).branches == old(self).branches,
            final(self).mouse_enabled == old(self).mouse_enabled,
            final(self).wf(),
            final(self).scroll_offset == if old(self).scroll_offset >= old(self).ui.page_rows() {
                (old(self).scroll_offset - old(self).ui.page_rows()) as usize
            } else {
                0
            },
            final(self).diff_hunks == old(self).diff_hunks,
    {
        let page = self.ui.page_size();
        self.scroll_offset = if self.scroll_offset >= page {
            self.scroll_offset - page
        } else {
            0
        };
    }

    /// Scroll the diff down by a page, stopping at its end.
    pub fn page_down(&mut self)
        requires
            old(self).wf(),
        ensures
            *final(self) == (App { scroll_offset: final(self).scroll_offset, ..*old(self) }),
            final(self).selected_commit == old(self).selected_commit,
            final(self).selected_file == old(self).selected_file,
            final(self).selected_branch == old(self).selected_branch,
            final(self).current_branch == old(self).current_branch,
            final(self).mode == old(self).mode,
            final(self).branches == old(self).branches,
            final(self).mouse_enabled == old(self).mouse_enabled,
            final(self).wf(),
            final(self).scroll_offset == if old(self).scroll_offset + old(self).ui.page_rows()
                <= old(self).max_scroll() {
                old(self).scroll_offset + old(self).ui.page_rows()
            } else {
                old(self).max_scroll()
            },
            final(self).diff_hunks == old(self).diff_hunks,
    {
        let max = self.max_scroll_now();
        let page = self.ui.page_size();
        self.scroll_offset = if max - self.scroll_offset >= page {
            self.scroll_offset + page
        } else {
            max
        };
    }

    /// Open the branch picker on `branches`, with the checked-out branch selected (the
    /// first one when none is).
    pub fn enter_branch_mode(&mut self, branches: Vec<BranchInfo>)
        requires
            old(self).wf(),
        ensures
            *final(self) == (App { branches: final(self).branches, selected_branch: final(self).selected_branch, branch_scroll_offset: final(self).branch_scroll_offset, mode: final(self).mode, needs_full_redraw: final(self).needs_full_redraw, ..*old(self) }),
            final(self).wf(),
            final(self).mode == AppMode::BranchSelect,
            final(self).branches@ == branches@,
            final(self).selected_branch == first_current(branches@),
            final(self).branch_scroll_offset == into_view(
                first_current(branches@),
                0,
                old(self).ui.branch_rows(),
            ),
            final(self).needs_full_redraw,
            final(self).commits == old(self).commits,
            final(self).selected_commit == old(self).selected_commit,
            final(self).files == old(self).files,
            final(self).selected_file == old(self).selected_file,
            final(self).diff_hunks == old(self).diff_hunks,
            final(self).scroll_offset == old(self).scroll_offset,
    {
        let mut pos: usize = 0;
        let mut i: usize = 0;
        let mut found = false;
        while i < branches.len() && !found
            invariant
                i <= branches@.len(),
                found ==> pos < branches@.len() && pos == first_current(branches@),
                !found ==> forall|k: int| 0 <= k < i ==> !(#[trigger] branches@[k]).is_current,
                !found ==> pos == 0,
            decreases branches@.len() - i,
        {
            if branches[i].is_current {
                pos = i;
                found = true;
                proof {
                    lemma_first_current(branches@, i as int);
                }
            }
            i += 1;
        }
        proof {
            if !found {
                lemma_no_current(branches@);
            }
        }
        self.branches = branches;
        self.selected_branch = pos;
        self.branch_scroll_offset = scroll_to_show(pos, 0, self.ui.visible_branches());
        self.mode = AppMode::BranchSelect;
        self.needs_full_redraw = true;
    }

    /// Move the branch picker's selection up.
    pub fn branch_up(&mut self)
        requires
            old(self).wf(),
        ensures
            *final(self) == (App { selected_branch: final(self).selected_branch, branch_scroll_offset: final(self).branch_scroll_offset, ..*old(self) }),
            final(self).selected_commit == old(self).selected_commit,
            final(self).selected_file == old(self).selected_file,
            final(self).scroll_offset == old(self).scroll_offset,
            final(self).current_branch == old(self).current_branch,
            final(self).mouse_enabled == old(self).mouse_enabled,
            final(self).wf(),
            final(self).selected_branch == if old(self).selected_branch > 0 {
                (old(self).selected_branch - 1) as usize
            } else {
                old(self).selected_branch
            },
            final(self).branch_scroll_offset == into_view(
                final(self).selected_branch as int,
                old(self).branch_scroll_offset as int,
                old(self).ui.branch_rows(),
            ),
            final(self).branches == old(self).branches,
            final(self).mode == old(self).mode,
    {
        if self.selected_branch > 0 {
            self.selected_branch = self.selected_branch - 1;
        }
        self.branch_scroll_offset = scroll_to_show(
            self.selected_branch,
            self.branch_scroll_offset,
            self.ui.visible_branches(),
        );
    }

    /// Move the branch picker's selection down.
    pub fn branch_down(&mut self)
        requires
            old(self).wf(),
        ensures
            *final(self) == (App { selected_branch: final(self).selected_branch, branch_scroll_offset: final(self).branch_scroll_offset, ..*old(self) }),
            final(self).selected_commit == old(self).selected_commit,
            final(self).selected_file == old(self).selected_file,
            final(self).scroll_offset == old(self).scroll_offset,
            final(self).current_branch == old(self).current_branch,
            final(self).mouse_enabled == old(self).mouse_enabled,
            final(self).wf(),
            final(self).selected_branch == if old(self).selected_branch + 1
                < old(self).branches@.len() {
                (old(self).selected_branch + 1) as usize
            } else {
                old(self).selected_branch
            },
            final(self).branch_scroll_offset == into_view(
                final(self).selected_branch as int,
                old(self).branch_scroll_offset as int,
                old(self).ui.branch_rows(),
            ),
            final(self).branches == old(self).branches,
            final(self).mode == old(self).mode,
    {
        if self.branches.len() > 0 && self.selected_branch < self.branches.len() - 1 {
            self.selected_branch = self.selected_branch + 1;
        }
        self.branch_scroll_offset = scroll_to_show(
            self.selected_branch,
            self.branch_scroll_offset,
            self.ui.visible_branches(),
        );
    }

    /// Take the branch picked in the picker as the current branch and close the
    /// picker. Returns whether a branch was picked, in which case its commit list is
    /// to be loaded and handed to `set_commits`.
    pub fn select_branch(&mut self) -> (picked: bool)
        requires
            old(self).wf(),
        ensures
            *final(self) == (App { current_branch: final(self).current_branch, mode: final(self).mode, needs_full_redraw: final(self).needs_full_redraw, ..*old(self) }),
            final(self).mouse_enabled == old(self).mouse_enabled,
            final(self).selected_branch == old(self).selected_branch,
            final(self).selected_commit == old(self).selected_commit,
            final(self).selected_file == old(self).selected_file,
            final(self).scroll_offset == old(self).scroll_offset,
            final(self).wf(),
            picked == (old(self).branches@.len() > 0),
            picked ==> final(self).current_branch@
                == old(self).branches@[old(self).selected_branch as int].name@,
            !picked ==> final(self).current_branch == old(self).current_branch,
            final(self).mode == AppMode::Normal,
            final(self).needs_full_redraw,
            final(self).commits == old(self).commits,
            final(self).files == old(self).files,
            final(self).diff_hunks == old(self).diff_hunks,
    {
        let picked = self.branches.len() > 0;
        if picked {
            self.current_branch = self.branches[self.selected_branch].name.clone();
        }
        self.mode = AppMode::Normal;
        self.needs_full_redraw = true;
        picked
    }

    /// Close the branch picker and keep the current branch.
    pub fn cancel_branch_mode(&mut self)
        requires
            old(self).wf(),
        ensures
            *final(self) == (App { mode: final(self).mode, needs_full_redraw: final(self).needs_full_redraw, ..*old(self) }),
            final(self).mouse_enabled == old(self).mouse_enabled,
            final(self).selected_branch == old(self).selected_branch,
            final(self).selected_commit == old(self).selected_commit,
            final(self).selected_file == old(self).selected_file,
            final(self).scroll_offset == old(self).scroll_offset,
            final(self).wf(),
            final(self).mode == AppMode::Normal,
            final(self).needs_full_redraw,
            final(self).current_branch == old(self).current_branch,
            final(self).commits == old(self).commits,
            final(self).selected_commit == old(self).selected_commit,
            final(self).files == old(self).files,
            final(self).selected_file == old(self).selected_file,
            final(self).diff_hunks == old(self).diff_hunks,
            final(self).scroll_offset == old(self).scroll_offset,
    {
        self.mode = AppMode::Normal;
        self.needs_full_redraw = true;
    }

    /// A click at `(column, row)`: on a row of the commit list or of the file list in
    /// the left panel it selects the item under it, unless that item is already
    /// selected or there is none there.
    pub fn click(&mut self, column: u16, row: u16) -> (cmd: Command)
        requires
            old(self).wf(),
        ensures
            *final(self) == (App { selected_commit: final(self).selected_commit, selected_file: final(self).selected_file, ..*old(self) }),
            final(self).scroll_offset == old(self).scroll_offset,
            final(self).mode == old(self).mode,
            final(self).mouse_enabled == old(self).mouse_enabled,
            final(self).wf(),
            cmd == click_command(*old(self), column, row),
            cmd == Command::LoadFiles ==> final(self).selected_commit == clicked_commit(
                *old(self),
                row,
            ),
            cmd != Command::LoadFiles ==> final(self).selected_commit == old(self).selected_commit,
            cmd == Command::LoadDiff ==> final(self).selected_file == clicked_file(*old(self), row),
            cmd != Command::LoadDiff ==> final(self).selected_file == old(self).selected_file,
            final(self).commit_scroll_offset == old(self).commit_scroll_offset,
            final(self).file_scroll_offset == old(self).file_scroll_offset,
            final(self).commits == old(self).commits,
            final(self).files == old(self).files,
            final(self).diff_hunks == old(self).diff_hunks,
    {
        let panel = self.ui.commit_panel_height;
        if column >= self.ui.left_panel_width {
            return Command::Nothing;
        }
        if row >= 1 && row < panel {
            let offset = (row - 1) as usize;
            if offset < self.commits.len() && self.commit_scroll_offset < self.commits.len() - offset {
                let clicked = offset + self.commit_scroll_offset;
                if clicked != self.selected_commit {
                    self.selected_commit = clicked;
                    return Command::LoadFiles;
                }
            }
        } else if row > panel {
            let offset = (row - panel - 1) as usize;
            if offset < self.ui.visible_files() && offset < self.files.len()
                && self.file_scroll_offset < self.files.len() - offset {
                let clicked = offset + self.file_scroll_offset;
                if clicked != self.selected_file {
                    self.selected_file = clicked;
                    return Command::LoadDiff;
                }
            }
        }
        Command::Nothing
    }

    /// Whether a refresh tick is due: the viewer is not picking a branch and the
    /// refresh interval has passed since the last tick.
    pub fn refresh_due(&self, elapsed_ms: u128) -> (r: bool)
        ensures
            r == (self.mode == AppMode::Normal && elapsed_ms >= REFRESH_INTERVAL_MS),
    {
        self.mode == AppMode::Normal && elapsed_ms >= REFRESH_INTERVAL_MS
    }

    /// A refresh tick's first step: take in the branch's commit list as queried
    /// again. When it differs from the one shown, by length or by the id or live flag
    /// of an entry, it replaces it, the selection is kept in bounds and in view, and
    /// the tick goes on by loading the selected commit's files again (with no commit
    /// left, the files and the diff are emptied). Otherwise nothing changes, and the
    /// tick goes on by checking the files only where the selected commit stands for
    /// the uncommitted changes: past commits do not change.
    pub fn reconcile_commits(&mut self, new_commits: Vec<CommitInfo>) -> (step: RefreshStep)
        requires
            old(self).wf(),
        ensures
            final(self).wf(),
            step == if commits_differ(commits_view(new_commits@), commits_view(old(self).commits@)) {
                RefreshStep::ReloadFiles
            } else if old(self).live_selected() {
                RefreshStep::CheckFiles
            } else {
                RefreshStep::Done
            },
            step != RefreshStep::ReloadFiles ==> *final(self) == *old(self),
            step == RefreshStep::ReloadFiles ==> {
                &&& commits_view(final(self).commits@) == commits_view(new_commits@)
                &&& new_commits@.len() > 0 ==> final(self).selected_commit == if old(
                    self,
                ).selected_commit < new_commits@.len() {
                    old(self).selected_commit
                } else {
                    (new_commits@.len() - 1) as usize
                }
                &&& final(self).commit_scroll_offset == if new_commits@.len() > 0 {
                    into_view(
                        final(self).selected_commit as int,
                        old(self).commit_scroll_offset as int,
                        old(self).ui.commit_rows(),
                    ) as usize
                } else {
                    0
                }
                &&& new_commits@.len() == 0 ==> final(self).files@.len() == 0
                    && final(self).diff_hunks@.len() == 0
                &&& final(self).needs_full_redraw
            },
    {
        let changed = commits_changed(&new_commits, &self.commits);
        if changed {
            let n = new_commits.len();
            self.commits = new_commits;
            self.selected_commit = clamp_index(self.selected_commit, n);
            if n > 0 {
                self.commit_scroll_offset = scroll_to_show(
                    self.selected_commit,
                    self.commit_scroll_offset,
                    self.ui.visible_commits(),
                );
            } else {
                self.commit_scroll_offset = 0;
                self.files = Vec::new();
                self.selected_file = 0;
                self.file_scroll_offset = 0;
                self.diff_hunks = Vec::new();
                self.scroll_offset = 0;
            }
            self.needs_full_redraw = true;
            RefreshStep::ReloadFiles
        } else if self.selected_is_live() {
            RefreshStep::CheckFiles
        } else {
            RefreshStep::Done
        }
    }

    /// Whether a refresh tick is to compute the selected file's diff again: the
    /// selected commit stands for the uncommitted changes and a file is listed.
    pub fn diff_check_due(&self) -> (r: bool)
        requires
            self.wf(),
        ensures
            r == (self.live_selected() && self.files@.len() > 0),
    {
        self.selected_is_live() && self.files.len() > 0
    }

    /// A refresh tick's step for the uncommitted changes: take in their file list as
    /// queried again. When it differs from the one shown, by length or by a path, it
    /// replaces it, the selection is kept in bounds and in view, and a full repaint
    /// is asked for. Otherwise nothing changes.
    pub fn reconcile_files(&mut self, new_files: Vec<FileChange>) -> (changed: bool)
        requires
            old(self).wf(),
        ensures
            final(self).wf(),
            changed == files_differ(files_view(new_files@), files_view(old(self).files@)),
            !changed ==> *final(self) == *old(self),
            changed ==> {
                &&& files_view(final(self).files@) == files_view(new_files@)
                &&& new_files@.len() > 0 ==> final(self).selected_file == if old(self).selected_file
                    < new_files@.len() {
                    old(self).selected_file
                } else {
                    (new_files@.len() - 1) as usize
                }
                &&& final(self).file_scroll_offset == if new_files@.len() > 0 {
                    into_view(
                        final(self).selected_file as int,
                        old(self).file_scroll_offset as int,
                        old(self).ui.file_rows(),
                    ) as usize
                } else {
                    0
                }
                &&& final(self).needs_full_redraw
                &&& final(self).diff_hunks == old(self).diff_hunks
                &&& final(self).commits == old(self).commits
                &&& final(self).selected_commit == old(self).selected_commit
            },
    {
        let changed = files_changed(&new_files, &self.files);
        if changed {
            let n = new_files.len();
            self.files = new_files;
            self.selected_file = clamp_index(self.selected_file, n);
            if n > 0 {
                self.file_scroll_offset = scroll_to_show(
                    self.selected_file,
                    self.file_scroll_offset,
                    self.ui.visible_files(),
                );
            } else {
                self.file_scroll_offset = 0;
            }
            self.needs_full_redraw = true;
        }
        changed
    }

    /// A refresh tick's last step: take in the selected file's diff as computed
    /// again. When it differs from the one shown, it replaces it, the scroll position
    /// is kept within the new diff, and a full repaint is asked for. Otherwise
    /// nothing changes.
    pub fn reconcile_hunks(&mut self, new_hunks: Vec<DiffHunk>) -> (changed: bool)
        requires
            old(self).wf(),
        ensures
            final(self).wf(),
            changed == (hunks_view(new_hunks@) != hunks_view(old(self).diff_hunks@)),
            !changed ==> *final(self) == *old(self),
            changed ==> {
                &&& hunks_view(final(self).diff_hunks@) == hunks_view(new_hunks@)
                &&& final(self).scroll_offset == if old(self).scroll_offset
                    <= final(self).max_scroll() {
                    old(self).scroll_offset as int
                } else {
                    final(self).max_scroll()
                }
                &&& final(self).needs_full_redraw
                &&& final(self).files == old(self).files
                &&& final(self).selected_file == old(self).selected_file
                &&& final(self).commits == old(self).commits
                &&& final(self).selected_commit == old(self).selected_commit
            },
    {
        let same = hunks_equal(&new_hunks, &self.diff_hunks);
        if !same {
            self.diff_hunks = new_hunks;
            let max = self.max_scroll_now();
            if self.scroll_offset > max {
                self.scroll_offset = max;
            }
            self.needs_full_redraw = true;
        }
        !same
    }

    /// Act on a key press; the result says what the caller is to load or do next.
    pub fn handle_key(&mut self, key: Key) -> (cmd: Command)
        requires
            old(self).wf(),
        ensures
            final(self).wf(),
            cmd == key_command(*old(self), key),
            final(self).mode == key_mode(*old(self), key),
            final(self).mouse_enabled == (if old(self).mode == AppMode::Normal && key == Key::Char(
                'm',
            ) {
                !old(self).mouse_enabled
            } else {
                old(self).mouse_enabled
            }),
            old(self).mode == AppMode::Normal ==> {
                &&& final(self).selected_commit == match key {
                    Key::Left => stepped_back(old(self).selected_commit),
                    Key::Right => stepped_forward(old(self).selected_commit, old(self).commits@.len()),
                    _ => old(self).selected_commit,
                }
                &&& final(self).selected_file == match key {
                    Key::Up => stepped_back(old(self).selected_file),
                    Key::Down => stepped_forward(old(self).selected_file, old(self).files@.len()),
                    _ => old(self).selected_file,
                }
                &&& final(self).scroll_offset == match key {
                    Key::Char('k') => scrolled_up(old(self).scroll_offset as int, SCROLL_STEP as int),
                    Key::Char('j') => scrolled_down(
                        old(self).scroll_offset as int,
                        SCROLL_STEP as int,
                        old(self).max_scroll(),
                    ),
                    Key::PageUp => scrolled_up(old(self).scroll_offset as int, old(self).ui.page_rows()),
                    Key::PageDown => scrolled_down(
                        old(self).scroll_offset as int,
                        old(self).ui.page_rows(),
                        old(self).max_scroll(),
                    ),
                    _ => old(self).scroll_offset as int,
                }
                &&& final(self).current_branch == old(self).current_branch
            },
            old(self).mode == AppMode::BranchSelect ==> {
                &&& final(self).selected_branch == match key {
                    Key::Up => stepped_back(old(self).selected_branch),
                    Key::Down => stepped_forward(old(self).selected_branch, old(self).branches@.len()),
                    _ => old(self).selected_branch,
                }
                &&& if key == Key::Enter && old(self).branches@.len() > 0 {
                    final(self).current_branch@ == old(self).branches@[old(self).selected_branch as int].name@
                } else {
                    final(self).current_branch == old(self).current_branch
                }
                &&& final(self).selected_commit == old(self).selected_commit
                &&& final(self).selected_file == old(self).selected_file
                &&& final(self).scroll_offset == old(self).scroll_offset
            },
    {
        match self.mode {
            AppMode::BranchSelect => {
                match key {
                    Key::Char('q') | Key::Esc | Key::Char('b') => {
                        self.cancel_branch_mode();
                        Command::Nothing
                    },
                    Key::Up => {
                        self.branch_up();
                        Command::Nothing
                    },
                    Key::Down => {
                        self.branch_down();
                        Command::Nothing
                    },
                    Key::Enter => {
                        if self.select_branch() {
                            Command::LoadCommits
                        } else {
                            Command::Nothing
                        }
                    },
                    _ => Command::Nothing,
                }
            },
            AppMode::Normal => {
                match key {
                    Key::Char('q') | Key::Control('c') => Command::Quit,
                    Key::Char('b') => Command::LoadBranches,
                    Key::Left => {
                        if self.select_prev_commit() {
                            Command::LoadFiles
                        } else {
                            Command::Nothing
                        }
                    },
                    Key::Right => {
                        if self.select_next_commit() {
                            Command::LoadFiles
                        } else {
                            Command::Nothing
                        }
                    },
                    Key::Up => {
                        if self.select_prev_file() {
                            Command::LoadDiff
                        } else {
                            Command::Nothing
                        }
                    },
                    Key::Down => {
                        if self.select_next_file() {
                            Command::LoadDiff
                        } else {
                            Command::Nothing
                        }
                    },
                    Key::Char('k') => {
                        self.scroll_up();
                        Command::Nothing
                    },
                    Key::Char('j') => {
                        self.scroll_down();
                        Command::Nothing
                    },
                    Key::PageUp => {
                        self.page_up();
                        Command::Nothing
                    },
                    Key::PageDown => {
                        self.page_down();
                        Command::Nothing
                    },
                    Key::Char('m') => {
                        self.mouse_enabled = !self.mouse_enabled;
                        Command::SetMouse
                    },
                    _ => Command::Nothing,
                }
            },
        }
    }

    /// Act on a mouse event, which only counts while mouse reporting is on and no
    /// branch is being picked: the wheel scrolls the diff, a press selects (see
    /// `click`).
    pub fn handle_mouse(&mut self, event: Mouse) -> (cmd: Command)
        requires
            old(self).wf(),
        ensures
            final(self).wf(),
            cmd == mouse_command(*old(self), event),
            !(old(self).mouse_enabled && old(self).mode == AppMode::Normal) ==> *final(self) == *old(
                self,
            ),
            old(self).mouse_enabled && old(self).mode == AppMode::Normal ==> {
                &&& final(self).scroll_offset == match event {
                    Mouse::ScrollUp => scrolled_up(old(self).scroll_offset as int, SCROLL_STEP as int),
                    Mouse::ScrollDown => scrolled_down(
                        old(self).scroll_offset as int,
                        SCROLL_STEP as int,
                        old(self).max_scroll(),
                    ),
                    _ => old(self).scroll_offset as int,
                }
                &&& final(self).selected_commit == if cmd == Command::LoadFiles {
                    clicked_commit(*old(self), event->row)
                } else {
                    old(self).selected_commit
                }
                &&& final(self).selected_file == if cmd == Command::LoadDiff {
                    clicked_file(*old(self), event->row)
                } else {
                    old(self).selected_file
                }
            },
    {
        if !(self.mouse_enabled && self.mode == AppMode::Normal) {
            return Command::Nothing;
        }
        match event {
            Mouse::ScrollUp => {
                self.scroll_up();
                Command::Nothing
            },
            Mouse::ScrollDown => {
                self.scroll_down();
                Command::Nothing
            },
            Mouse::Press { column, row } => self.click(column, row),
            Mouse::Other => Command::Nothing,
        }
    }
}

/// Scroll-into-view: in a well-formed state the selected commit, file and branch
/// each lie in the scrolled window of their non-empty list. Every operation on the
/// state keeps it well-formed, so this holds after any sequence of them.
pub proof fn lemma_selection_in_view(a: App)
    requires
        a.wf(),
    ensures
        a.commits@.len() > 0 ==> a.commit_scroll_offset <= a.selected_commit
            < a.commit_scroll_offset + a.ui.commit_rows(),
        a.files@.len() > 0 ==> a.file_scroll_offset <= a.selected_file < a.file_scroll_offset
            + a.ui.file_rows(),
        a.branches@.len() > 0 ==> a.branch_scroll_offset <= a.selected_branch
            < a.branch_scroll_offset + a.ui.branch_rows(),
{
}

/// The diff's scroll position stays between 0 and its rows less the pane's rows
/// (or 0) in a well-formed state, which every operation keeps.
pub proof fn lemma_diff_scroll_bounded(a: App)
    requires
        a.wf(),
    ensures
        0 <= a.scroll_offset <= if total_lines_capped(hunks_view(a.diff_hunks@))
            > a.ui.diff_rows() {
            total_lines_capped(hunks_view(a.diff_hunks@)) - a.ui.diff_rows()
        } else {
            0
        },
{
}

/// Once a refresh tick has taken in the repository's commit list, file list and
/// diff, a tick handed the same lists finds nothing changed: it replaces nothing
/// and asks for no repaint.
pub proof fn lemma_reconcile_settles(
    a: App,
    commits: Seq<CommitView>,
    files: Seq<(Seq<char>, Seq<char>)>,
    hunks: Seq<Seq<LineView>>,
)
    requires
        commits_view(a.commits@) == commits,
        files_view(a.files@) == files,
        hunks_view(a.diff_hunks@) == hunks,
    ensures
        !commits_differ(commits, commits_view(a.commits@)),
        !files_differ(files, files_view(a.files@)),
        hunks == hunks_view(a.diff_hunks@),
{
}

} // verus!
