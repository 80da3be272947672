use vstd::prelude::*;

verus! {

/// What a line of a line-level diff is: kept, removed from the old text, or added
/// in the new one.
#[derive(Clone, Copy, Debug, PartialEq, Eq, Structural)]
pub enum LineTag {
    Equal,
    Delete,
    Insert,
}

/// A highlighted piece of a line: its foreground colour and its text.
#[derive(Debug)]
pub struct Span {
    pub r: u8,
    pub g: u8,
    pub b: u8,
    pub text: String,
}

pub ghost struct SpanView {
    pub r: u8,
    pub g: u8,
    pub b: u8,
    pub text: Seq<char>,
}

impl View for Span {
    type V = SpanView;

    open spec fn view(&self) -> SpanView {
        SpanView { r: self.r, g: self.g, b: self.b, text: self.text@ }
    }
}

pub open spec fn spans_view(s: Seq<Span>) -> Seq<SpanView> {
    s.map_values(|x: Span| x@)
}

/// One line of a diff, with its numbers in the old and in the new text.
#[derive(Debug)]
pub struct DiffLine {
    pub old_num: Option<usize>,
    pub new_num: Option<usize>,
    pub tag: LineTag,
    pub content: String,
    pub highlighted: Option<Vec<Span>>,
}

pub ghost struct LineView {
    pub old_num: Option<usize>,
    pub new_num: Option<usize>,
    pub tag: LineTag,
    pub content: Seq<char>,
    pub highlighted: Option<Seq<SpanView>>,
}

impl View for DiffLine {
    type V = LineView;

    open spec fn view(&self) -> LineView {
        LineView {
            old_num: self.old_num,
            new_num: self.new_num,
            tag: self.tag,
            content: self.content@,
            highlighted: match self.highlighted {
                Some(v) => Some(spans_view(v@)),
                None => None,
            },
        }
    }
}

pub open spec fn lines_view(s: Seq<DiffLine>) -> Seq<LineView> {
    s.map_values(|l: DiffLine| l@)
}

/// A window of a diff: changed lines with the context around them.
#[derive(Debug)]
pub struct DiffHunk {
    pub lines: Vec<DiffLine>,
}

impl View for DiffHunk {
    type V = Seq<LineView>;

    open spec fn view(&self) -> Seq<LineView> {
        lines_view(self.lines@)
    }
}

pub open spec fn hunks_view(s: Seq<DiffHunk>) -> Seq<Seq<LineView>> {
    s.map_values(|h: DiffHunk| h@)
}

/// A changed path and the kind of its change ("added", "deleted", "modified" or
/// "changed").
#[derive(Debug)]
pub struct FileChange {
    pub path: String,
    pub status: String,
}

/// An entry of the commit list; the pseudo-commit of uncommitted changes has
/// `is_local_changes` set and empty ids.
#[derive(Debug)]
pub struct CommitInfo {
    pub sha: String,
    pub short_sha: String,
    pub message: String,
    pub author: String,
    pub is_local_changes: bool,
}

pub ghost struct CommitView {
    pub sha: Seq<char>,
    pub short_sha: Seq<char>,
    pub message: Seq<char>,
    pub author: Seq<char>,
    pub is_local_changes: bool,
}

impl View for CommitInfo {
    type V = CommitView;

    open spec fn view(&self) -> CommitView {
        CommitView {
            sha: self.sha@,
            short_sha: self.short_sha@,
            message: self.message@,
            author: self.author@,
            is_local_changes: self.is_local_changes,
        }
    }
}

pub open spec fn commits_view(s: Seq<CommitInfo>) -> Seq<CommitView> {
    s.map_values(|c: CommitInfo| c@)
}

impl View for FileChange {
    type V = (Seq<char>, Seq<char>);

    open spec fn view(&self) -> (Seq<char>, Seq<char>) {
        (self.path@, self.status@)
    }
}

pub open spec fn files_view(s: Seq<FileChange>) -> Seq<(Seq<char>, Seq<char>)> {
    s.map_values(|f: FileChange| f@)
}

/// An entry of the branch list.
#[derive(Debug)]
pub struct BranchInfo {
    pub name: String,
    pub is_current: bool,
    pub is_remote: bool,
}

pub fn copy_span(s: &Span) -> (r: Span)
    ensures
        r@ == s@,
{
    Span { r: s.r, g: s.g, b: s.b, text: s.text.clone() }
}

pub fn copy_spans(v: &Vec<Span>) -> (r: Vec<Span>)
    ensures
        spans_view(r@) == spans_view(v@),
{
    let mut out: Vec<Span> = Vec::new();
    let mut i: usize = 0;
    while i < v.len()
        invariant
            i <= v@.len(),
            out@.len() == i,
            forall|k: int| 0 <= k < i ==> #[trigger] out@[k]@ == v@[k]@,
        decreases v@.len() - i,
    {
        out.push(copy_span(&v[i]));
        i += 1;
    }
    assert(spans_view(out@) =~= spans_view(v@));
    out
}

/// A copy of a diff line.
pub fn copy_line(l: &DiffLine) -> (r: DiffLine)
    ensures
        r@ == l@,
{
    let highlighted = match &l.highlighted {
        Some(v) => Some(copy_spans(v)),
        None => None,
    };
    DiffLine {
        old_num: l.old_num,
        new_num: l.new_num,
        tag: l.tag,
        content: l.content.clone(),
        highlighted,
    }
}

} // verus!
