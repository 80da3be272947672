use gitti::types::{DiffHunk, DiffLine, LineTag};
use gitti::viewport::{diff_view_rows, DiffRow};

fn hunk(n: usize) -> DiffHunk {
    DiffHunk {
        lines: (0..n)
            .map(|i| DiffLine {
                old_num: Some(i + 1),
                new_num: None,
                tag: LineTag::Delete,
                content: format!("{}", i),
                highlighted: None,
            })
            .collect(),
    }
}

/// The pane's rows as a drawing loop walks them.
fn walk(hunks: &[DiffHunk], scroll: usize, room: usize) -> Vec<DiffRow> {
    let mut out = Vec::new();
    let mut row = 0usize;
    let mut line_idx = 0usize;
    for (k, h) in hunks.iter().enumerate() {
        if row >= room {
            break;
        }
        if line_idx + h.lines.len() <= scroll {
            line_idx += h.lines.len() + 1;
            continue;
        }
        if k > 0 && line_idx >= scroll {
            out.push(DiffRow::Separator);
            row += 1;
            if row >= room {
                break;
            }
        }
        line_idx += 1;
        for t in 0..h.lines.len() {
            if line_idx < scroll {
                line_idx += 1;
                continue;
            }
            if row >= room {
                break;
            }
            out.push(DiffRow::Line { hunk: k, line: t });
            row += 1;
            line_idx += 1;
        }
    }
    out
}

#[test]
fn rows_from_the_top() {
    let hunks = vec![hunk(2), hunk(3)];
    assert_eq!(
        diff_view_rows(&hunks, 0, 10),
        vec![
            DiffRow::Line { hunk: 0, line: 0 },
            DiffRow::Line { hunk: 0, line: 1 },
            DiffRow::Separator,
            DiffRow::Line { hunk: 1, line: 0 },
            DiffRow::Line { hunk: 1, line: 1 },
            DiffRow::Line { hunk: 1, line: 2 },
        ]
    );
}

#[test]
fn rows_are_cut_at_the_pane_height() {
    let hunks = vec![hunk(2), hunk(3)];
    assert_eq!(
        diff_view_rows(&hunks, 0, 3),
        vec![DiffRow::Line { hunk: 0, line: 0 }, DiffRow::Line { hunk: 0, line: 1 }, DiffRow::Separator]
    );
    assert!(diff_view_rows(&hunks, 0, 0).is_empty());
    assert!(diff_view_rows(&Vec::new(), 0, 5).is_empty());
}

#[test]
fn scrolled_rows_start_inside_a_hunk() {
    let hunks = vec![hunk(4), hunk(2)];
    assert_eq!(
        diff_view_rows(&hunks, 3, 10),
        vec![
            DiffRow::Line { hunk: 0, line: 2 },
            DiffRow::Line { hunk: 0, line: 3 },
            DiffRow::Separator,
            DiffRow::Line { hunk: 1, line: 0 },
            DiffRow::Line { hunk: 1, line: 1 },
        ]
    );
}

#[test]
fn rows_match_a_drawing_walk() {
    let shapes: Vec<Vec<usize>> = vec![vec![1], vec![3, 1, 4], vec![2, 2, 2, 2], vec![5, 1], vec![1, 1, 1, 1, 1, 1]];
    for shape in &shapes {
        let hunks: Vec<DiffHunk> = shape.iter().map(|n| hunk(*n)).collect();
        for scroll in 0..14 {
            for room in 0..9 {
                assert_eq!(diff_view_rows(&hunks, scroll, room), walk(&hunks, scroll, room));
            }
        }
    }
}
