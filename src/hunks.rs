use vstd::prelude::*;

use crate::types::{copy_line, hunks_view, lines_view, DiffHunk, DiffLine, LineTag, LineView};

verus! {

/// Whether line `i` of a diff is a change (a deletion or an insertion).
pub open spec fn is_change(v: Seq<LineView>, i: int) -> bool {
    0 <= i < v.len() && v[i].tag != LineTag::Equal
}

/// The end of the run of changed lines that starts at `i`: the first index at or
/// after `i` that holds an unchanged line, or the length.
pub open spec fn run_end(v: Seq<LineView>, i: int) -> int
    decreases v.len() - i,
{
    if 0 <= i < v.len() && v[i].tag != LineTag::Equal {
        run_end(v, i + 1)
    } else {
        i
    }
}

pub proof fn lemma_run_end(v: Seq<LineView>, i: int)
    requires
        0 <= i <= v.len(),
    ensures
        i <= run_end(v, i) <= v.len(),
        forall|c: int| i <= c < run_end(v, i) ==> is_change(v, c),
        run_end(v, i) < v.len() ==> v[run_end(v, i)].tag == LineTag::Equal,
        is_change(v, i) ==> run_end(v, i) > i,
    decreases v.len() - i,
{
    if i < v.len() && v[i].tag != LineTag::Equal {
        lemma_run_end(v, i + 1);
    }
}

/// The windows `(start, end)` of the hunks that a scan from index `i` emits. The
/// scan skips unchanged lines; at a change it takes up to `ctx` lines before it,
/// the whole run of changes, and up to `ctx` lines after the run, and goes on
/// after that window.
pub open spec fn hunk_windows(v: Seq<LineView>, ctx: nat, i: int) -> Seq<(int, int)>
    decreases v.len() - i,
{
    if i < 0 || i >= v.len() {
        Seq::empty()
    } else if v[i].tag == LineTag::Equal {
        hunk_windows(v, ctx, i + 1)
    } else {
        let j = run_end(v, i);
        let start = if i - ctx > 0 { i - ctx } else { 0 };
        let end = if j + ctx < v.len() { j + ctx } else { v.len() as int };
        proof {
            lemma_run_end(v, i);
        }
        seq![(start, end)] + hunk_windows(v, ctx, end)
    }
}

/// The hunks of a flat diff with `ctx` lines of context: each window's lines.
pub open spec fn extracted(v: Seq<LineView>, ctx: nat) -> Seq<Seq<LineView>> {
    window_contents(v, hunk_windows(v, ctx, 0))
}

/// The lines that each window of a list covers.
pub open spec fn window_contents(v: Seq<LineView>, ws: Seq<(int, int)>) -> Seq<Seq<LineView>> {
    ws.map_values(|w: (int, int)| v.subrange(w.0, w.1))
}

/// Append `lines[from..to]` to `out`.
fn push_range(out: &mut Vec<DiffLine>, lines: &Vec<DiffLine>, from: usize, to: usize)
    requires
        from <= to <= lines@.len(),
    ensures
        final(out)@.len() == old(out)@.len() + (to - from),
        forall|k: int| 0 <= k < old(out)@.len() ==> #[trigger] final(out)@[k]@ == old(out)@[k]@,
        forall|k: int|
            0 <= k < to - from ==> #[trigger] final(out)@[old(out)@.len() + k]@ == lines@[from
                + k]@,
{
    let ghost start_len = out@.len();
    let mut i: usize = from;
    while i < to
        invariant
            from <= i <= to <= lines@.len(),
            out@.len() == start_len + (i - from),
            start_len == old(out)@.len(),
            forall|k: int| 0 <= k < start_len ==> #[trigger] out@[k]@ == old(out)@[k]@,
            forall|k: int| 0 <= k < i - from ==> #[trigger] out@[start_len + k]@ == lines@[from + k]@,
        decreases to - i,
    {
        out.push(copy_line(&lines[i]));
        proof {
            assert(out@[start_len + (i - from)]@ == lines@[from + (i - from)]@);
        }
        i += 1;
    }
}

/// Cut a flat diff into hunks: around every run of changed lines, a window with
/// up to `ctx` lines of context before and after it. Windows are not merged, so
/// two hunks may share context lines.
pub fn extract_hunks(lines: &Vec<DiffLine>, ctx: usize) -> (hunks: Vec<DiffHunk>)
    ensures
        hunks_view(hunks@) == extracted(lines_view(lines@), ctx as nat),
{
    let ghost v = lines_view(lines@);
    let ghost all = hunk_windows(v, ctx as nat, 0);
    let ghost mut wins: Seq<(int, int)> = Seq::empty();
    let mut hunks: Vec<DiffHunk> = Vec::new();
    let n = lines.len();
    let mut i: usize = 0;
    while i < n
        invariant
            n == lines@.len() == v.len(),
            v == lines_view(lines@),
            all == hunk_windows(v, ctx as nat, 0),
            i <= n,
            wins + hunk_windows(v, ctx as nat, i as int) == all,
            hunks@.len() == wins.len(),
            forall|k: int|
                0 <= k < wins.len() ==> #[trigger] hunks@[k]@ == v.subrange(wins[k].0, wins[k].1),
        decreases n - i,
    {
        if lines[i].tag != LineTag::Equal {
            let start: usize = if i > ctx { i - ctx } else { 0 };
            let mut j: usize = i;
            while j < n && lines[j].tag != LineTag::Equal
                invariant
                    n == lines@.len() == v.len(),
                    v == lines_view(lines@),
                    i <= j <= n,
                    run_end(v, i as int) == run_end(v, j as int),
                decreases n - j,
            {
                j += 1;
            }
            let end: usize = if ctx < n - j { j + ctx } else { n };
            let mut hunk_lines: Vec<DiffLine> = Vec::new();
            push_range(&mut hunk_lines, lines, start, end);
            proof {
                lemma_run_end(v, i as int);
                assert(run_end(v, j as int) == j);
                assert forall|k: int| 0 <= k < end - start implies #[trigger] lines_view(
                    hunk_lines@,
                )[k] == v.subrange(start as int, end as int)[k] by {
                    assert(hunk_lines@[0 + k]@ == lines@[start + k]@);
                }
                assert(lines_view(hunk_lines@) =~= v.subrange(start as int, end as int));
                assert(hunk_windows(v, ctx as nat, i as int) == seq![(start as int, end as int)]
                    + hunk_windows(v, ctx as nat, end as int));
                assert(wins.push((start as int, end as int)) + hunk_windows(v, ctx as nat, end as int)
                    =~= wins + hunk_windows(v, ctx as nat, i as int));
                wins = wins.push((start as int, end as int));
            }
            hunks.push(DiffHunk { lines: hunk_lines });
            i = end;
        } else {
            i += 1;
        }
    }
    proof {
        assert(wins =~= all);
        assert(hunks_view(hunks@) =~= extracted(v, ctx as nat));
    }
    hunks
}

/// Changed lines that are parted by an unchanged line stand more than `d` lines apart.
pub open spec fn changes_separated(v: Seq<LineView>, d: nat) -> bool {
    forall|a: int, b: int, c: int|
        #![trigger is_change(v, a), is_change(v, b), v[c]]
        0 <= a < c < b < v.len() && is_change(v, a) && is_change(v, b) && v[c].tag
            == LineTag::Equal ==> b - a > d
}

proof fn lemma_windows_shape(v: Seq<LineView>, ctx: nat, i: int)
    requires
        0 <= i,
    ensures
        forall|k: int|
            #![trigger hunk_windows(v, ctx, i)[k]]
            0 <= k < hunk_windows(v, ctx, i).len() ==> {
                let w = hunk_windows(v, ctx, i)[k];
                &&& 0 <= w.0 < w.1 <= v.len()
                &&& w.1 > i
                &&& w.0 + ctx >= i
            },
        forall|k: int|
            #![trigger hunk_windows(v, ctx, i)[k]]
            0 <= k < hunk_windows(v, ctx, i).len() - 1 ==> hunk_windows(v, ctx, i)[k].0
                < hunk_windows(v, ctx, i)[k + 1].0 && hunk_windows(v, ctx, i)[k].1 < hunk_windows(
                v,
                ctx,
                i,
            )[k + 1].1,
    decreases v.len() - i,
{
    if i < v.len() {
        if v[i].tag == LineTag::Equal {
            lemma_windows_shape(v, ctx, i + 1);
            assert(hunk_windows(v, ctx, i) == hunk_windows(v, ctx, i + 1));
        } else {
            lemma_run_end(v, i);
            let j = run_end(v, i);
            let end = if j + ctx < v.len() { j + ctx } else { v.len() as int };
            lemma_windows_shape(v, ctx, end);
            let w = hunk_windows(v, ctx, i);
            let r = hunk_windows(v, ctx, end);
            assert(w == seq![w[0]] + r);
            assert forall|k: int| #![trigger w[k]] 1 <= k < w.len() implies w[k] == r[k - 1] by {}
            if r.len() > 0 {
                assert(r[0].0 + ctx >= end);
                assert(w[1] == r[0]);
            }
            assert forall|k: int| #![trigger w[k]] 0 <= k < w.len() - 1 implies w[k].0 < w[k + 1].0 && w[k].1 < w[k
                + 1].1 by {
                if k >= 1 {
                    assert(w[k] == r[k - 1]);
                    assert(w[k + 1] == r[k]);
                } else if r.len() > 0 {
                    assert(w[1] == r[0]);
                }
            }
        }
    }
}

/// Whether the window `w` of the flat diff holds a changed line.
spec fn holds_change(v: Seq<LineView>, w: (int, int)) -> bool {
    exists|c: int| w.0 <= c < w.1 && #[trigger] is_change(v, c)
}

proof fn lemma_windows_hold_change(v: Seq<LineView>, ctx: nat, i: int)
    requires
        0 <= i,
    ensures
        forall|k: int|
            0 <= k < hunk_windows(v, ctx, i).len() ==> holds_change(
                v,
                #[trigger] hunk_windows(v, ctx, i)[k],
            ),
    decreases v.len() - i,
{
    if i < v.len() {
        if v[i].tag == LineTag::Equal {
            lemma_windows_hold_change(v, ctx, i + 1);
            let w = hunk_windows(v, ctx, i);
            let r = hunk_windows(v, ctx, i + 1);
            assert(w == r);
            assert forall|k: int| 0 <= k < w.len() implies holds_change(v, #[trigger] w[k]) by {
                assert(w[k] == r[k]);
            }
        } else {
            lemma_run_end(v, i);
            let j = run_end(v, i);
            let end = if j + ctx < v.len() { j + ctx } else { v.len() as int };
            lemma_windows_hold_change(v, ctx, end);
            let w = hunk_windows(v, ctx, i);
            let r = hunk_windows(v, ctx, end);
            assert(w == seq![w[0]] + r);
            assert forall|k: int| 0 <= k < w.len() implies holds_change(v, #[trigger] w[k]) by {
                if k == 0 {
                    assert(w[0] == (if i - ctx > 0 { i - ctx } else { 0 }, end));
                    assert(w[0].0 <= i < w[0].1 && is_change(v, i));
                } else {
                    assert(w[k] == r[k - 1]);
                }
            }
        }
    }
}

/// Every hunk holds a changed line.
pub proof fn lemma_hunks_hold_change(v: Seq<LineView>, ctx: nat, t: int)
    requires
        0 <= t < extracted(v, ctx).len(),
    ensures
        exists|p: int|
            0 <= p < extracted(v, ctx)[t].len() && (#[trigger] extracted(v, ctx)[t][p]).tag
                != LineTag::Equal,
{
    let w = hunk_windows(v, ctx, 0);
    lemma_windows_hold_change(v, ctx, 0);
    lemma_windows_shape(v, ctx, 0);
    assert(0 <= w[t].0 < w[t].1 <= v.len());
    assert(holds_change(v, w[t]));
    let c = choose|c: int| w[t].0 <= c < w[t].1 && #[trigger] is_change(v, c);
    let h = extracted(v, ctx)[t];
    assert(h == v.subrange(w[t].0, w[t].1));
    assert(h[c - w[t].0] == v[c]);
}

proof fn lemma_first_window_start(v: Seq<LineView>, ctx: nat, i: int)
    requires
        0 <= i,
        hunk_windows(v, ctx, i).len() > 0,
    ensures
        exists|s: int| i <= s && is_change(v, s) && hunk_windows(v, ctx, i)[0].0 + ctx >= s,
    decreases v.len() - i,
{
    if i < v.len() {
        if v[i].tag == LineTag::Equal {
            lemma_first_window_start(v, ctx, i + 1);
            let s = choose|s: int| i + 1 <= s && is_change(v, s) && hunk_windows(v, ctx, i + 1)[0].0 + ctx >= s;
            assert(i <= s && is_change(v, s) && hunk_windows(v, ctx, i)[0].0 + ctx >= s);
        } else {
            lemma_run_end(v, i);
            assert(is_change(v, i) && hunk_windows(v, ctx, i)[0].0 + ctx >= i);
        }
    }
}

proof fn lemma_windows_disjoint(v: Seq<LineView>, ctx: nat, i: int)
    requires
        0 <= i,
        changes_separated(v, 2 * ctx),
    ensures
        forall|k: int|
            #![trigger hunk_windows(v, ctx, i)[k]]
            0 <= k < hunk_windows(v, ctx, i).len() - 1 ==> hunk_windows(v, ctx, i)[k].1
                <= hunk_windows(v, ctx, i)[k + 1].0,
    decreases v.len() - i,
{
    if i < v.len() {
        if v[i].tag == LineTag::Equal {
            lemma_windows_disjoint(v, ctx, i + 1);
            assert(hunk_windows(v, ctx, i) == hunk_windows(v, ctx, i + 1));
        } else {
            lemma_run_end(v, i);
            let j = run_end(v, i);
            let end = if j + ctx < v.len() { j + ctx } else { v.len() as int };
            lemma_windows_disjoint(v, ctx, end);
            let w = hunk_windows(v, ctx, i);
            let r = hunk_windows(v, ctx, end);
            assert(w == seq![w[0]] + r);
            assert forall|k: int| #![trigger w[k]] 1 <= k < w.len() implies w[k] == r[k - 1] by {}
            if r.len() > 0 {
                lemma_first_window_start(v, ctx, end);
                let s = choose|s: int| end <= s && is_change(v, s) && r[0].0 + ctx >= s;
                assert(is_change(v, j - 1));
                assert(is_change(v, j - 1) && is_change(v, s) && v[j].tag == LineTag::Equal);
                assert(w[1] == r[0]);
            }
            assert forall|k: int| #![trigger w[k]] 0 <= k < w.len() - 1 implies w[k].1 <= w[k + 1].0 by {
                if k >= 1 {
                    assert(w[k] == r[k - 1]);
                    assert(w[k + 1] == r[k]);
                }
            }
        }
    }
}

/// Whether the scan may start at `i`: at the first line, past the last, or next to
/// an unchanged line, never inside a run of changes.
spec fn scan_point(v: Seq<LineView>, i: int) -> bool {
    i == 0 || i >= v.len() || v[i - 1].tag == LineTag::Equal || v[i].tag == LineTag::Equal
}

proof fn lemma_context_covered_from(v: Seq<LineView>, ctx: nat, i: int, m: int, k: int)
    requires
        0 <= i <= m,
        scan_point(v, i),
        changes_separated(v, ctx),
        is_change(v, m),
        0 <= k < v.len(),
        m - ctx <= k <= m + ctx,
    ensures
        exists|t: int|
            #![trigger hunk_windows(v, ctx, i)[t]]
            0 <= t < hunk_windows(v, ctx, i).len() && hunk_windows(v, ctx, i)[t].0 <= k
                < hunk_windows(v, ctx, i)[t].1,
    decreases v.len() - i,
{
    if v[i].tag == LineTag::Equal {
        lemma_context_covered_from(v, ctx, i + 1, m, k);
        let t = choose|t: int|
            #![trigger hunk_windows(v, ctx, i + 1)[t]]
            0 <= t < hunk_windows(v, ctx, i + 1).len() && hunk_windows(v, ctx, i + 1)[t].0 <= k
                < hunk_windows(v, ctx, i + 1)[t].1;
        assert(hunk_windows(v, ctx, i) == hunk_windows(v, ctx, i + 1));
    } else {
        lemma_run_end(v, i);
        let j = run_end(v, i);
        let end = if j + ctx < v.len() { j + ctx } else { v.len() as int };
        let w = hunk_windows(v, ctx, i);
        let r = hunk_windows(v, ctx, end);
        assert(w == seq![w[0]] + r);
        if m < j {
            assert(w[0].0 <= k < w[0].1);
        } else {
            assert(v[j].tag == LineTag::Equal);
            assert(is_change(v, j - 1));
            assert(is_change(v, j - 1) && is_change(v, m) && v[j].tag == LineTag::Equal);
            assert(m >= end);
            if end < v.len() && ctx > 1 {
                if v[end - 1].tag != LineTag::Equal {
                    assert(is_change(v, j - 1) && is_change(v, end - 1) && v[j].tag
                        == LineTag::Equal);
                }
            }
            assert(scan_point(v, end));
            lemma_context_covered_from(v, ctx, end, m, k);
            let t = choose|t: int| #![trigger r[t]] 0 <= t < r.len() && r[t].0 <= k < r[t].1;
            assert(w[t + 1] == r[t]);
        }
    }
}

/// Every line within `ctx` lines of a changed line lies in the window of some hunk,
/// provided changed lines parted by an unchanged line stand more than `ctx` apart.
pub proof fn lemma_context_covered(v: Seq<LineView>, ctx: nat, m: int, k: int)
    requires
        changes_separated(v, ctx),
        is_change(v, m),
        0 <= k < v.len(),
        m - ctx <= k <= m + ctx,
    ensures
        exists|t: int|
            #![trigger hunk_windows(v, ctx, 0)[t]]
            0 <= t < hunk_windows(v, ctx, 0).len() && hunk_windows(v, ctx, 0)[t].0 <= k
                < hunk_windows(v, ctx, 0)[t].1 && extracted(v, ctx)[t][k - hunk_windows(v, ctx, 0)[t].0]
                == v[k],
{
    lemma_context_covered_from(v, ctx, 0, m, k);
    let w = hunk_windows(v, ctx, 0);
    let t = choose|t: int| #![trigger w[t]] 0 <= t < w.len() && w[t].0 <= k < w[t].1;
    lemma_windows_shape(v, ctx, 0);
    assert(w[t] == hunk_windows(v, ctx, 0)[t]);
    assert(extracted(v, ctx)[t] == v.subrange(w[t].0, w[t].1));
}

/// Hunks are non-empty windows of the flat diff, in the order of the input: each
/// starts and ends after the one before it. When changed lines parted by an
/// unchanged line stand more than twice `ctx` apart, the windows do not overlap.
pub proof fn lemma_hunks_ordered(v: Seq<LineView>, ctx: nat)
    ensures
        extracted(v, ctx).len() == hunk_windows(v, ctx, 0).len(),
        forall|t: int|
            #![trigger hunk_windows(v, ctx, 0)[t]]
            0 <= t < hunk_windows(v, ctx, 0).len() ==> {
                let w = hunk_windows(v, ctx, 0)[t];
                &&& 0 <= w.0 < w.1 <= v.len()
                &&& extracted(v, ctx)[t] == v.subrange(w.0, w.1)
                &&& extracted(v, ctx)[t].len() > 0
            },
        forall|t: int|
            #![trigger hunk_windows(v, ctx, 0)[t]]
            0 <= t < hunk_windows(v, ctx, 0).len() - 1 ==> hunk_windows(v, ctx, 0)[t].0
                < hunk_windows(v, ctx, 0)[t + 1].0 && hunk_windows(v, ctx, 0)[t].1 < hunk_windows(
                v,
                ctx,
                0,
            )[t + 1].1,
        changes_separated(v, 2 * ctx) ==> forall|t: int|
            #![trigger hunk_windows(v, ctx, 0)[t]]
            0 <= t < hunk_windows(v, ctx, 0).len() - 1 ==> hunk_windows(v, ctx, 0)[t].1
                <= hunk_windows(v, ctx, 0)[t + 1].0,
{
    lemma_windows_shape(v, ctx, 0);
    if changes_separated(v, 2 * ctx) {
        lemma_windows_disjoint(v, ctx, 0);
    }
}

/// The lines of a list of hunks, one hunk after the other.
pub open spec fn concat(hs: Seq<Seq<LineView>>) -> Seq<LineView>
    decreases hs.len(),
{
    if hs.len() == 0 {
        Seq::empty()
    } else {
        hs[0] + concat(hs.drop_first())
    }
}

/// `sub` is `whole` with some lines left out and the rest kept in their order.
pub open spec fn is_subsequence(sub: Seq<LineView>, whole: Seq<LineView>) -> bool {
    exists|idx: Seq<int>| #[trigger] picks(idx, sub, whole)
}

/// `idx` gives, in rising order, the position in `whole` of each line of `sub`.
pub open spec fn picks(idx: Seq<int>, sub: Seq<LineView>, whole: Seq<LineView>) -> bool {
    &&& idx.len() == sub.len()
    &&& forall|t: int|
        0 <= t < idx.len() ==> 0 <= #[trigger] idx[t] < whole.len() && sub[t] == whole[idx[t]]
    &&& forall|s: int, t: int| 0 <= s < t < idx.len() ==> #[trigger] idx[s] < #[trigger] idx[t]
}

/// The input positions that a list of windows covers, window after window.
spec fn window_indices(ws: Seq<(int, int)>) -> Seq<int>
    decreases ws.len(),
{
    if ws.len() == 0 {
        Seq::empty()
    } else {
        Seq::new((ws[0].1 - ws[0].0) as nat, |k: int| ws[0].0 + k) + window_indices(ws.drop_first())
    }
}

proof fn lemma_chain_at(ws: Seq<(int, int)>, j: int, k: int)
    requires
        0 <= j < k < ws.len(),
        forall|m: int| 0 <= m < ws.len() ==> #[trigger] ws[m].0 <= ws[m].1,
        forall|m: int| 0 <= m < ws.len() - 1 ==> #[trigger] ws[m].1 <= ws[m + 1].0,
    ensures
        ws[j].1 <= ws[k].0,
    decreases k - j,
{
    if k > j + 1 {
        lemma_chain_at(ws, j, k - 1);
        assert(ws[k - 1].0 <= ws[k - 1].1);
        assert(ws[k - 1].1 <= ws[k].0);
    }
}

proof fn lemma_window_indices(v: Seq<LineView>, ws: Seq<(int, int)>, lo: int)
    requires
        0 <= lo,
        forall|m: int| 0 <= m < ws.len() ==> lo <= #[trigger] ws[m].0 <= ws[m].1 <= v.len(),
        forall|j: int, k: int| 0 <= j < k < ws.len() ==> #[trigger] ws[j].1 <= #[trigger] ws[k].0,
    ensures
        ({
            let idx = window_indices(ws);
            let c = concat(window_contents(v, ws));
            &&& idx.len() == c.len()
            &&& forall|t: int| 0 <= t < idx.len() ==> lo <= #[trigger] idx[t] < v.len() && c[t] == v[idx[t]]
            &&& forall|s: int, t: int| 0 <= s < t < idx.len() ==> #[trigger] idx[s] < #[trigger] idx[t]
        }),
    decreases ws.len(),
{
    let hs = window_contents(v, ws);
    if ws.len() > 0 {
        let rest = ws.drop_first();
        let w0 = ws[0];
        assert forall|m: int| 0 <= m < rest.len() implies w0.1 <= #[trigger] rest[m].0 <= rest[m].1 <= v.len() by {
            assert(rest[m] == ws[m + 1]);
            assert(ws[0].1 <= ws[m + 1].0);
        }
        assert forall|j: int, k: int| 0 <= j < k < rest.len() implies #[trigger] rest[j].1 <= #[trigger] rest[k].0 by {
            assert(rest[j] == ws[j + 1] && rest[k] == ws[k + 1]);
        }
        assert(lo <= ws[0].0 <= ws[0].1);
        lemma_window_indices(v, rest, w0.1);
        assert(hs.drop_first() =~= window_contents(v, rest));
        let head = Seq::new((w0.1 - w0.0) as nat, |k: int| w0.0 + k);
        let idx = window_indices(ws);
        let ri = window_indices(rest);
        let rc = concat(window_contents(v, rest));
        let c = concat(hs);
        assert(idx == head + ri);
        assert(c == hs[0] + rc);
        assert(hs[0] == v.subrange(w0.0, w0.1));
        assert(hs[0].len() == head.len());
        assert forall|t: int| 0 <= t < idx.len() implies lo <= #[trigger] idx[t] < v.len() && c[t] == v[idx[t]] by {
            if t < head.len() {
                assert(idx[t] == w0.0 + t);
            } else {
                assert(idx[t] == ri[t - head.len()]);
                assert(c[t] == rc[t - head.len()]);
            }
        }
        assert forall|s: int, t: int| 0 <= s < t < idx.len() implies #[trigger] idx[s] < #[trigger] idx[t] by {
            if t < head.len() {
            } else if s < head.len() {
                assert(idx[t] == ri[t - head.len()]);
                assert(ri[t - head.len()] >= w0.1);
            } else {
                assert(idx[s] == ri[s - head.len()]);
                assert(idx[t] == ri[t - head.len()]);
            }
        }
    }
}

/// When changed lines parted by an unchanged line stand more than twice `ctx`
/// apart, the hunks' lines, one hunk after the other, are a subsequence of the
/// flat diff: lines of it left out, the rest in their order.
pub proof fn lemma_hunks_subsequence(v: Seq<LineView>, ctx: nat)
    requires
        changes_separated(v, 2 * ctx),
    ensures
        is_subsequence(concat(extracted(v, ctx)), v),
{
    let ws = hunk_windows(v, ctx, 0);
    lemma_windows_valid(v, ctx);
    lemma_window_indices(v, ws, 0);
    assert(picks(window_indices(ws), concat(extracted(v, ctx)), v));
}

proof fn lemma_windows_valid(v: Seq<LineView>, ctx: nat)
    requires
        changes_separated(v, 2 * ctx),
    ensures
        forall|m: int|
            0 <= m < hunk_windows(v, ctx, 0).len() ==> 0 <= #[trigger] hunk_windows(v, ctx, 0)[m].0
                <= hunk_windows(v, ctx, 0)[m].1 <= v.len(),
        forall|j: int, k: int|
            0 <= j < k < hunk_windows(v, ctx, 0).len() ==> #[trigger] hunk_windows(v, ctx, 0)[j].1
                <= #[trigger] hunk_windows(v, ctx, 0)[k].0,
{
    let ws = hunk_windows(v, ctx, 0);
    lemma_windows_shape(v, ctx, 0);
    lemma_windows_disjoint(v, ctx, 0);
    assert forall|j: int, k: int| 0 <= j < k < ws.len() implies #[trigger] ws[j].1 <= #[trigger] ws[k].0 by {
        lemma_chain_at(ws, j, k);
    }
}

} // verus!
