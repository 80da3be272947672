use vstd::prelude::*;

use crate::types::{hunks_view, DiffHunk, LineView};

verus! {

/// A row of the diff pane: the separator drawn before a hunk, or a line of a hunk.
#[derive(Clone, Copy, Debug, PartialEq, Eq, Structural)]
pub enum DiffRow {
    Separator,
    Line { hunk: usize, line: usize },
}

/// The rows that the diff pane shows from hunk `k` on, with `room` rows left. Row
/// positions count a separator before each hunk and then its lines; `li` is the
/// position of hunk `k`'s separator. A hunk that ends at or above the scroll
/// position is passed over whole; from the first one that does not, the pane
/// shows its lines from the scroll position down, after its separator when that
/// separator is not above the scroll position and the hunk is not the first.
pub open spec fn rows_from(h: Seq<Seq<LineView>>, k: int, li: int, scroll: int, room: int) -> Seq<
    DiffRow,
>
    decreases h.len() - k,
{
    if k < 0 || k >= h.len() || room <= 0 {
        Seq::empty()
    } else if li + h[k].len() <= scroll {
        rows_from(h, k + 1, li + h[k].len() + 1, scroll, room)
    } else {
        let sep: Seq<DiffRow> = if k > 0 && li >= scroll {
            seq![DiffRow::Separator]
        } else {
            Seq::empty()
        };
        let first = if scroll - li - 1 > 0 {
            scroll - li - 1
        } else {
            0
        };
        let avail = h[k].len() - first;
        let n = if avail < room - sep.len() {
            avail
        } else {
            room - sep.len()
        };
        sep + Seq::new(n as nat, |t: int| DiffRow::Line { hunk: k as usize, line: (first + t) as usize })
            + rows_from(h, k + 1, li + h[k].len() + 1, scroll, room - sep.len() - n)
    }
}

/// The rows that a diff pane of `room` rows shows when the diff is scrolled to
/// `scroll`.
pub fn diff_view_rows(hunks: &Vec<DiffHunk>, scroll: usize, room: usize) -> (r: Vec<DiffRow>)
    ensures
        r@ == rows_from(hunks_view(hunks@), 0, 0, scroll as int, room as int),
{
    let ghost h = hunks_view(hunks@);
    let ghost all = rows_from(h, 0, 0, scroll as int, room as int);
    let ghost mut gli: int = 0;
    let mut out: Vec<DiffRow> = Vec::new();
    let mut k: usize = 0;
    let mut li: u128 = 0;
    let mut past = false;
    let mut left: usize = room;
    while k < hunks.len() && left > 0
        invariant
            h == hunks_view(hunks@),
            all == rows_from(h, 0, 0, scroll as int, room as int),
            k <= hunks@.len(),
            out@ + rows_from(h, k as int, gli, scroll as int, left as int) == all,
            !past ==> li == gli && gli <= scroll + 1,
            past ==> gli > scroll,
            past ==> k > 0,
        decreases hunks@.len() - k,
    {
        let len = hunks[k].lines.len();
        proof {
            assert(h[k as int].len() == len);
        }
        if !past && li + len as u128 <= scroll as u128 {
            li = li + len as u128 + 1;
            proof {
                gli = gli + len + 1;
            }
            k += 1;
        } else {
            let ghost before = out@;
            let ghost old_left = left;
            let sep = k > 0 && (past || li >= scroll as u128);
            let first: usize = if !past && scroll as u128 > li + 1 {
                (scroll as u128 - li - 1) as usize
            } else {
                0
            };
            let ghost sep_seq: Seq<DiffRow> = if sep {
                seq![DiffRow::Separator]
            } else {
                Seq::empty()
            };
            if sep {
                out.push(DiffRow::Separator);
                left = left - 1;
            }
            let avail = len - first;
            let n: usize = if avail < left {
                avail
            } else {
                left
            };
            let ghost lines_seq = Seq::new(
                n as nat,
                |t: int| DiffRow::Line { hunk: k, line: (first + t) as usize },
            );
            let mut t: usize = 0;
            while t < n
                invariant
                    t <= n,
                    n <= avail == len - first,
                    first <= len,
                    out@ == before + sep_seq + lines_seq.subrange(0, t as int),
                    lines_seq == Seq::new(
                        n as nat,
                        |t: int| DiffRow::Line { hunk: k, line: (first + t) as usize },
                    ),
                decreases n - t,
            {
                out.push(DiffRow::Line { hunk: k, line: first + t });
                proof {
                    assert(lines_seq.subrange(0, t + 1) =~= lines_seq.subrange(0, t as int).push(
                        lines_seq[t as int],
                    ));
                }
                t += 1;
            }
            proof {
                assert(lines_seq.subrange(0, n as int) =~= lines_seq);
                assert(out@ =~= before + sep_seq + lines_seq);
                assert(rows_from(h, k as int, gli, scroll as int, old_left as int) == sep_seq
                    + lines_seq + rows_from(
                    h,
                    k + 1,
                    gli + len + 1,
                    scroll as int,
                    old_left - sep_seq.len() - n,
                ));
                assert(before + sep_seq + lines_seq + rows_from(
                    h,
                    k + 1,
                    gli + len + 1,
                    scroll as int,
                    left - n,
                ) =~= before + rows_from(h, k as int, gli, scroll as int, old_left as int));
                gli = gli + len + 1;
            }
            left = left - n;
            past = true;
            k += 1;
        }
    }
    proof {
        assert(out@ =~= all);
    }
    out
}

} // verus!
