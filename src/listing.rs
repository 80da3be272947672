use vstd::prelude::*;

use crate::content::same_text;
use crate::types::{files_view, BranchInfo, CommitInfo, CommitView, FileChange};

verus! {

/// The kind of change that the repository reports for a path.
#[derive(Clone, Copy, Debug, PartialEq, Eq, Structural)]
pub enum DeltaKind {
    Added,
    Deleted,
    Modified,
    Other,
}

/// The status word shown for a kind of change.
pub open spec fn status_name(k: DeltaKind) -> Seq<char> {
    match k {
        DeltaKind::Added => "added"@,
        DeltaKind::Deleted => "deleted"@,
        DeltaKind::Modified => "modified"@,
        DeltaKind::Other => "changed"@,
    }
}

/// The status word shown for a kind of change.
pub fn delta_to_status(k: DeltaKind) -> (r: String)
    ensures
        r@ == status_name(k),
{
    match k {
        DeltaKind::Added => "added".to_string(),
        DeltaKind::Deleted => "deleted".to_string(),
        DeltaKind::Modified => "modified".to_string(),
        DeltaKind::Other => "changed".to_string(),
    }
}

/// Whether a path lies under the build output directory, which is never listed.
pub open spec fn in_build_dir(p: Seq<char>) -> bool {
    p.len() >= 7 && p.subrange(0, 7) == "target/"@
}

/// Whether a path lies under the build output directory, which is never listed.
pub fn is_build_path(p: &str) -> (r: bool)
    ensures
        r == in_build_dir(p@),
{
    let n = p.unicode_len();
    if n < 7 {
        return false;
    }
    let head = p.substring_char(0, 7);
    same_text(head, "target/")
}

/// The changed-file listing built from the first `n` reported paths: paths under
/// the build directory are left out and, when `dedup` is set, so is a path that is
/// already listed.
pub open spec fn collected(e: Seq<(Seq<char>, DeltaKind)>, dedup: bool, n: int) -> Seq<
    (Seq<char>, Seq<char>),
>
    decreases n,
{
    if n <= 0 {
        Seq::empty()
    } else {
        let prev = collected(e, dedup, n - 1);
        let p = e[n - 1].0;
        if in_build_dir(p) || (dedup && exists|k: int| 0 <= k < prev.len() && #[trigger] prev[k].0 == p) {
            prev
        } else {
            prev.push((p, status_name(e[n - 1].1)))
        }
    }
}

pub open spec fn entries_view(e: Seq<(String, DeltaKind)>) -> Seq<(Seq<char>, DeltaKind)> {
    e.map_values(|x: (String, DeltaKind)| (x.0@, x.1))
}

fn listed(files: &Vec<FileChange>, p: &str) -> (r: bool)
    ensures
        r == exists|k: int| 0 <= k < files@.len() && #[trigger] files_view(files@)[k].0 == p@,
{
    let mut i: usize = 0;
    while i < files.len()
        invariant
            i <= files@.len(),
            forall|k: int| 0 <= k < i ==> #[trigger] files_view(files@)[k].0 != p@,
        decreases files@.len() - i,
    {
        if same_text(files[i].path.as_str(), p) {
            assert(files_view(files@)[i as int].0 == p@);
            return true;
        }
        i += 1;
    }
    false
}

/// The changed-file listing of the reported paths, in the order reported, without
/// paths under the build directory and, when `dedup` is set, without repeats.
pub fn collect_files(entries: &Vec<(String, DeltaKind)>, dedup: bool) -> (r: Vec<FileChange>)
    ensures
        files_view(r@) == collected(entries_view(entries@), dedup, entries@.len() as int),
{
    let ghost e = entries_view(entries@);
    let mut files: Vec<FileChange> = Vec::new();
    let mut i: usize = 0;
    while i < entries.len()
        invariant
            e == entries_view(entries@),
            i <= entries@.len(),
            files_view(files@) == collected(e, dedup, i as int),
        decreases entries@.len() - i,
    {
        let (path, kind) = &entries[i];
        let skip = is_build_path(path.as_str()) || (dedup && listed(&files, path.as_str()));
        if !skip {
            let f = FileChange { path: path.clone(), status: delta_to_status(*kind) };
            files.push(f);
            proof {
                assert(files_view(files@) =~= collected(e, dedup, i as int).push(
                    (path@, status_name(*kind)),
                ));
            }
        }
        i += 1;
    }
    files
}

/// Whether `branch` is the checked-out branch.
pub fn is_current_branch(branch: &str, current: &Option<String>) -> (r: bool)
    ensures
        r == (current is Some && current->0@ == branch@),
{
    match current {
        Some(c) => same_text(c.as_str(), branch),
        None => false,
    }
}

/// The short form of a commit id: its first seven characters.
pub open spec fn short_id(sha: Seq<char>) -> Seq<char> {
    if sha.len() < 7 {
        sha
    } else {
        sha.subrange(0, 7)
    }
}

/// The entry of the commit list for one commit of the history.
pub open spec fn history_entry(h: (Seq<char>, Seq<char>, Seq<char>)) -> CommitView {
    CommitView {
        sha: h.0,
        short_sha: short_id(h.0),
        message: h.1,
        author: h.2,
        is_local_changes: false,
    }
}

/// The pseudo-commit that stands for the uncommitted changes.
pub open spec fn local_changes_entry() -> CommitView {
    CommitView {
        sha: Seq::empty(),
        short_sha: Seq::empty(),
        message: "Local Changes"@,
        author: Seq::empty(),
        is_local_changes: true,
    }
}

pub open spec fn history_view(h: Seq<(String, String, String)>) -> Seq<(Seq<char>, Seq<char>, Seq<char>)> {
    h.map_values(|x: (String, String, String)| (x.0@, x.1@, x.2@))
}

/// The commit list of a branch: the history's commits, most recent first, after
/// the pseudo-commit of uncommitted changes when `live` holds.
pub open spec fn commit_list_view(h: Seq<(Seq<char>, Seq<char>, Seq<char>)>, live: bool) -> Seq<CommitView> {
    let hist = h.map_values(|x: (Seq<char>, Seq<char>, Seq<char>)| history_entry(x));
    if live {
        seq![local_changes_entry()] + hist
    } else {
        hist
    }
}

/// The commit list of a branch from its history (id, summary, author), most recent
/// first; the pseudo-commit of uncommitted changes leads it when `live` holds, that
/// is when the branch is checked out and the working tree or index has changes.
pub fn commit_list(history: &Vec<(String, String, String)>, live: bool) -> (r: Vec<CommitInfo>)
    ensures
        r@.map_values(|c: CommitInfo| c@) == commit_list_view(history_view(history@), live),
{
    let ghost target = commit_list_view(history_view(history@), live);
    let mut out: Vec<CommitInfo> = Vec::new();
    if live {
        out.push(CommitInfo {
            sha: String::new(),
            short_sha: String::new(),
            message: "Local Changes".to_string(),
            author: String::new(),
            is_local_changes: true,
        });
    }
    let ghost off: int = if live { 1 } else { 0 };
    let mut i: usize = 0;
    while i < history.len()
        invariant
            i <= history@.len(),
            off == if live { 1int } else { 0int },
            target == commit_list_view(history_view(history@), live),
            target.len() == history@.len() + off,
            out@.len() == i + off,
            forall|k: int| 0 <= k < i + off ==> #[trigger] out@[k]@ == target[k],
        decreases history@.len() - i,
    {
        let (sha, message, author) = &history[i];
        let n = sha.as_str().unicode_len();
        let cut: usize = if n < 7 { n } else { 7 };
        let short_sha = sha.as_str().substring_char(0, cut).to_string();
        proof {
            if n >= 7 {
                assert(short_sha@ == short_id(sha@));
            } else {
                assert(sha@.subrange(0, n as int) =~= sha@);
            }
        }
        let c = CommitInfo {
            sha: sha.clone(),
            short_sha,
            message: message.clone(),
            author: author.clone(),
            is_local_changes: false,
        };
        out.push(c);
        i += 1;
    }
    assert(out@.map_values(|c: CommitInfo| c@) =~= target);
    out
}

/// Whether `a` comes no later than `b` in the order of names: character by
/// character, a prefix first (the byte order of their UTF-8 forms).
pub open spec fn name_le(a: Seq<char>, b: Seq<char>) -> bool
    decreases a.len(),
{
    if a.len() == 0 {
        true
    } else if b.len() == 0 {
        false
    } else if (a[0] as u32) != (b[0] as u32) {
        (a[0] as u32) < (b[0] as u32)
    } else {
        name_le(a.drop_first(), b.drop_first())
    }
}

proof fn lemma_name_le_total(a: Seq<char>, b: Seq<char>)
    ensures
        name_le(a, b) || name_le(b, a),
    decreases a.len(),
{
    if a.len() > 0 && b.len() > 0 && a[0] as u32 == b[0] as u32 {
        lemma_name_le_total(a.drop_first(), b.drop_first());
    }
}

proof fn lemma_name_le_trans(a: Seq<char>, b: Seq<char>, c: Seq<char>)
    requires
        name_le(a, b),
        name_le(b, c),
    ensures
        name_le(a, c),
    decreases a.len(),
{
    if a.len() > 0 && b.len() > 0 && c.len() > 0 && a[0] as u32 == b[0] as u32 && b[0] as u32
        == c[0] as u32 {
        lemma_name_le_trans(a.drop_first(), b.drop_first(), c.drop_first());
    }
}

/// An entry of the branch list as the order sees it: whether it is checked out,
/// and its name.
pub open spec fn branch_key(b: BranchInfo) -> (bool, Seq<char>) {
    (b.is_current, b.name@)
}

/// The order of the branch list: the checked-out branch first, then by name.
pub open spec fn branch_le(a: (bool, Seq<char>), b: (bool, Seq<char>)) -> bool {
    (a.0 && !b.0) || (a.0 == b.0 && name_le(a.1, b.1))
}

proof fn lemma_branch_le_total(a: (bool, Seq<char>), b: (bool, Seq<char>))
    ensures
        branch_le(a, b) || branch_le(b, a),
{
    lemma_name_le_total(a.1, b.1);
}

proof fn lemma_branch_le_trans(a: (bool, Seq<char>), b: (bool, Seq<char>), c: (bool, Seq<char>))
    requires
        branch_le(a, b),
        branch_le(b, c),
    ensures
        branch_le(a, c),
{
    if a.0 == b.0 && b.0 == c.0 {
        lemma_name_le_trans(a.1, b.1, c.1);
    }
}

/// The keys of a branch list.
pub open spec fn branch_keys(s: Seq<BranchInfo>) -> Seq<(bool, Seq<char>)> {
    s.map_values(|b: BranchInfo| branch_key(b))
}

/// The keys of the local branches named `names`, one marked current when it is the
/// checked-out branch.
pub open spec fn named_keys(names: Seq<String>, current: Option<String>) -> Seq<(bool, Seq<char>)> {
    names.map_values(
        |n: String| (current is Some && current->0@ == n@, n@),
    )
}

fn name_le_exec(a: &str, b: &str) -> (r: bool)
    ensures
        r == name_le(a@, b@),
{
    let n = a.unicode_len();
    let m = b.unicode_len();
    let mut i: usize = 0;
    assert(a@.subrange(0, n as int) =~= a@);
    assert(b@.subrange(0, m as int) =~= b@);
    while i < n && i < m
        invariant
            n == a@.len(),
            m == b@.len(),
            i <= n,
            i <= m,
            name_le(a@, b@) == name_le(a@.subrange(i as int, n as int), b@.subrange(i as int, m as int)),
        decreases n - i,
    {
        let x = a.get_char(i) as u32;
        let y = b.get_char(i) as u32;
        let ghost sa = a@.subrange(i as int, n as int);
        let ghost sb = b@.subrange(i as int, m as int);
        assert(sa[0] == a@[i as int] && sb[0] == b@[i as int]);
        if x != y {
            return x < y;
        }
        assert(sa.drop_first() =~= a@.subrange(i + 1, n as int));
        assert(sb.drop_first() =~= b@.subrange(i + 1, m as int));
        i += 1;
    }
    i == n
}

fn branch_le_exec(a: &BranchInfo, b: &BranchInfo) -> (r: bool)
    ensures
        r == branch_le(branch_key(*a), branch_key(*b)),
{
    if a.is_current != b.is_current {
        a.is_current
    } else {
        name_le_exec(a.name.as_str(), b.name.as_str())
    }
}

/// The branch list of the local branches named `names`: the checked-out branch
/// first, then the rest by name.
pub fn order_branches(names: &Vec<String>, current: &Option<String>) -> (r: Vec<BranchInfo>)
    ensures
        branch_keys(r@).to_multiset() == named_keys(names@, *current).to_multiset(),
        forall|i: int, j: int|
            0 <= i < j < r@.len() ==> branch_le(branch_key(#[trigger] r@[i]), branch_key(#[trigger] r@[j])),
        forall|i: int| 0 <= i < r@.len() ==> !(#[trigger] r@[i]).is_remote,
{
    let ghost keys = named_keys(names@, *current);
    let mut out: Vec<BranchInfo> = Vec::new();
    let mut i: usize = 0;
    assert(branch_keys(out@) =~= keys.subrange(0, 0));
    while i < names.len()
        invariant
            keys == named_keys(names@, *current),
            i <= names@.len(),
            branch_keys(out@).to_multiset() == keys.subrange(0, i as int).to_multiset(),
            forall|a: int, b: int|
                0 <= a < b < out@.len() ==> branch_le(branch_key(#[trigger] out@[a]), branch_key(#[trigger] out@[b])),
            forall|k: int| 0 <= k < out@.len() ==> !(#[trigger] out@[k]).is_remote,
        decreases names@.len() - i,
    {
        let name = &names[i];
        let is_current = is_current_branch(name.as_str(), current);
        let entry = BranchInfo { name: name.clone(), is_current, is_remote: false };
        let mut p: usize = 0;
        while p < out.len() && branch_le_exec(&out[p], &entry)
            invariant
                p <= out@.len(),
                forall|k: int| 0 <= k < p ==> branch_le(branch_key(#[trigger] out@[k]), branch_key(entry)),
            decreases out@.len() - p,
        {
            p += 1;
        }
        let ghost before = out@;
        proof {
            if p < out@.len() {
                lemma_branch_le_total(branch_key(out@[p as int]), branch_key(entry));
            }
        }
        out.insert(p, entry);
        proof {
            assert(keys[i as int] == branch_key(entry));
            assert(branch_keys(out@) =~= branch_keys(before).insert(p as int, branch_key(entry)));
            vstd::seq_lib::to_multiset_insert(branch_keys(before), p as int, branch_key(entry));
            assert(keys.subrange(0, i + 1) =~= keys.subrange(0, i as int).push(keys[i as int]));
            vstd::seq_lib::to_multiset_build(keys.subrange(0, i as int), keys[i as int]);
            assert forall|a: int, b: int| 0 <= a < b < out@.len() implies branch_le(
                branch_key(#[trigger] out@[a]),
                branch_key(#[trigger] out@[b]),
            ) by {
                if b < p {
                    assert(out@[a] == before[a] && out@[b] == before[b]);
                } else if b == p {
                    assert(out@[a] == before[a]);
                } else if a == p {
                    assert(out@[b] == before[b - 1]);
                    if b - 1 > p {
                        assert(branch_le(branch_key(before[p as int]), branch_key(before[b - 1])));
                        lemma_branch_le_trans(branch_key(entry), branch_key(before[p as int]), branch_key(before[b - 1]));
                    }
                } else if a < p {
                    assert(out@[a] == before[a] && out@[b] == before[b - 1]);
                    assert(branch_le(branch_key(before[a]), branch_key(before[b - 1])));
                } else {
                    assert(out@[a] == before[a - 1] && out@[b] == before[b - 1]);
                    assert(branch_le(branch_key(before[a - 1]), branch_key(before[b - 1])));
                }
            }
            assert forall|k: int| 0 <= k < out@.len() implies !(#[trigger] out@[k]).is_remote by {
                if k < p {
                    assert(out@[k] == before[k]);
                } else if k > p {
                    assert(out@[k] == before[k - 1]);
                }
            }
        }
        i += 1;
    }
    assert(keys.subrange(0, names@.len() as int) =~= keys);
    out
}

} // verus!
