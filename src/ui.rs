use vstd::prelude::*;

verus! {

/// The terminal's size and the panels' layout in it.
#[derive(Clone, Copy, Debug)]
pub struct Ui {
    pub term_width: u16,
    pub term_height: u16,
    pub left_panel_width: u16,
    pub commit_panel_height: u16,
}

impl Ui {
    /// The layout of a terminal of `width` columns and `height` rows: the left panel
    /// takes a quarter of the width, between 25 and 50 columns; the commit panel a
    /// third of the height.
    pub fn new(width: u16, height: u16) -> (r: Ui)
        ensures
            r.term_width == width,
            r.term_height == height,
            r.left_panel_width == (if width / 4 < 25 {
                25
            } else if width / 4 > 50 {
                50
            } else {
                width / 4
            }),
            r.commit_panel_height == height / 3,
    {
        let quarter = width / 4;
        let left_panel_width = if quarter < 25 {
            25
        } else if quarter > 50 {
            50
        } else {
            quarter
        };
        Ui { term_width: width, term_height: height, left_panel_width, commit_panel_height: height / 3 }
    }

    /// Rows of the commit list below its header; one at least.
    pub open spec fn commit_rows(&self) -> int {
        at_least_one(self.commit_panel_height - 1)
    }

    /// Rows of the file list below its header; one at least.
    pub open spec fn file_rows(&self) -> int {
        at_least_one(self.term_height - self.commit_panel_height - 2)
    }

    /// Rows of the branch list; one at least.
    pub open spec fn branch_rows(&self) -> int {
        at_least_one(self.term_height - 4)
    }

    /// Rows of the diff pane; one at least.
    pub open spec fn diff_rows(&self) -> int {
        at_least_one(self.term_height - 3)
    }

    /// Lines that a page of the diff moves; one at least.
    pub open spec fn page_rows(&self) -> int {
        at_least_one(self.term_height - 4)
    }

    pub fn visible_commits(&self) -> (r: usize)
        ensures
            r == self.commit_rows(),
    {
        rows_left(self.commit_panel_height, 1)
    }

    pub fn visible_files(&self) -> (r: usize)
        ensures
            r == self.file_rows(),
    {
        if self.term_height >= self.commit_panel_height {
            rows_left(self.term_height - self.commit_panel_height, 2)
        } else {
            1
        }
    }

    pub fn visible_branches(&self) -> (r: usize)
        ensures
            r == self.branch_rows(),
    {
        rows_left(self.term_height, 4)
    }

    pub fn visible_diff_lines(&self) -> (r: usize)
        ensures
            r == self.diff_rows(),
    {
        rows_left(self.term_height, 3)
    }

    pub fn page_size(&self) -> (r: usize)
        ensures
            r == self.page_rows(),
    {
        rows_left(self.term_height, 4)
    }
}

/// `n`, or 1 where `n` is below 1: a list always keeps one row, however small the
/// terminal.
pub open spec fn at_least_one(n: int) -> int {
    if n >= 1 {
        n
    } else {
        1
    }
}

fn rows_left(total: u16, taken: u16) -> (r: usize)
    ensures
        r == at_least_one(total - taken),
{
    if total > taken {
        (total - taken) as usize
    } else {
        1
    }
}

/// How far down the diff the bottom of the view is, in percent, or `None` when the
/// whole diff fits.
pub open spec fn scroll_percent_spec(offset: int, total: int, visible: int) -> Option<int> {
    if total <= visible {
        None
    } else if (offset + visible) * 100 / total > 100 {
        Some(100)
    } else {
        Some((offset + visible) * 100 / total)
    }
}

/// How far down the diff the bottom of the view is, in percent, or `None` when the
/// whole diff fits.
pub fn scroll_percent(offset: usize, total: usize, visible: usize) -> (r: Option<u128>)
    ensures
        match r {
            Some(p) => scroll_percent_spec(offset as int, total as int, visible as int) == Some(
                p as int,
            ),
            None => scroll_percent_spec(offset as int, total as int, visible as int) is None,
        },
{
    if total <= visible {
        return None;
    }
    let seen: u128 = offset as u128 + visible as u128;
    assert(seen * 100 <= u128::MAX) by (nonlinear_arith)
        requires
            seen <= 2 * (usize::MAX as u128),
    ;
    let p = seen * 100 / total as u128;
    if p > 100 {
        Some(100)
    } else {
        Some(p)
    }
}

} // verus!
