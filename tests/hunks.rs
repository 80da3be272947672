use gitti::content::{assemble_hunks, diff_changes, number_lines, trim_newlines};
use gitti::hunks::extract_hunks;
use gitti::types::{DiffLine, LineTag, Span};

fn line(tag: LineTag, text: &str) -> DiffLine {
    DiffLine { old_num: None, new_num: None, tag, content: text.to_string(), highlighted: None }
}

fn flat(tags: &[LineTag]) -> Vec<DiffLine> {
    tags.iter().enumerate().map(|(i, t)| line(*t, &format!("l{}", i))).collect()
}

fn contents(h: &gitti::types::DiffHunk) -> Vec<String> {
    h.lines.iter().map(|l| l.content.clone()).collect()
}

use LineTag::{Delete as D, Equal as E, Insert as I};

#[test]
fn two_line_change_gives_one_hunk() {
    let changes = diff_changes("a\nb\n", "a\nc\n");
    let got: Vec<(LineTag, String)> = changes.iter().map(|(t, s)| (*t, s.clone())).collect();
    assert_eq!(
        got,
        vec![(E, "a".to_string()), (D, "b".to_string()), (I, "c".to_string())]
    );
    let lines = number_lines(&changes, &Vec::new());
    let hunks = extract_hunks(&lines, 5);
    assert_eq!(hunks.len(), 1);
    let h = &hunks[0].lines;
    assert_eq!(h.len(), 3);
    assert_eq!((h[0].old_num, h[0].new_num, h[0].tag, h[0].content.as_str()), (Some(1), Some(1), E, "a"));
    assert_eq!((h[1].old_num, h[1].new_num, h[1].tag, h[1].content.as_str()), (Some(2), None, D, "b"));
    assert_eq!((h[2].old_num, h[2].new_num, h[2].tag, h[2].content.as_str()), (None, Some(2), I, "c"));
}

#[test]
fn no_changes_gives_no_hunks() {
    assert!(extract_hunks(&Vec::new(), 3).is_empty());
    assert!(extract_hunks(&flat(&[E, E, E]), 3).is_empty());
}

#[test]
fn context_is_taken_on_both_sides() {
    let lines = flat(&[E, E, E, D, E, E, E]);
    let hunks = extract_hunks(&lines, 2);
    assert_eq!(hunks.len(), 1);
    assert_eq!(contents(&hunks[0]), vec!["l1", "l2", "l3", "l4", "l5"]);
}

#[test]
fn zero_context_keeps_only_changes() {
    let lines = flat(&[E, D, I, E, I, E]);
    let hunks = extract_hunks(&lines, 0);
    assert_eq!(hunks.len(), 2);
    assert_eq!(contents(&hunks[0]), vec!["l1", "l2"]);
    assert_eq!(contents(&hunks[1]), vec!["l4"]);
}

#[test]
fn context_is_cut_at_the_ends() {
    let lines = flat(&[D, E, I]);
    let hunks = extract_hunks(&lines, usize::MAX);
    assert_eq!(hunks.len(), 1);
    assert_eq!(contents(&hunks[0]), vec!["l0", "l1", "l2"]);
}

#[test]
fn close_changes_share_context_lines() {
    let lines = flat(&[D, E, E, D]);
    let hunks = extract_hunks(&lines, 2);
    assert_eq!(hunks.len(), 2);
    assert_eq!(contents(&hunks[0]), vec!["l0", "l1", "l2"]);
    assert_eq!(contents(&hunks[1]), vec!["l1", "l2", "l3"]);
}

#[test]
fn every_line_near_a_change_is_in_a_hunk() {
    let tags = [E, E, D, E, E, E, E, E, E, I, I, E, E, E, E];
    let ctx = 2;
    let lines = flat(&tags);
    let hunks = extract_hunks(&lines, ctx);
    for (m, t) in tags.iter().enumerate() {
        if *t == E {
            continue;
        }
        let lo = m.saturating_sub(ctx);
        let hi = (m + ctx).min(tags.len() - 1);
        for k in lo..=hi {
            let name = format!("l{}", k);
            assert!(hunks.iter().any(|h| h.lines.iter().any(|l| l.content == name)));
        }
    }
}

#[test]
fn hunks_are_non_empty_and_in_order() {
    let tags = [I, E, E, E, E, E, D, D, E, E, E, E, E, I];
    let lines = flat(&tags);
    let hunks = extract_hunks(&lines, 1);
    assert_eq!(hunks.len(), 3);
    let mut all: Vec<usize> = Vec::new();
    for h in &hunks {
        assert!(!h.lines.is_empty());
        for l in &h.lines {
            all.push(l.content[1..].parse().unwrap());
        }
    }
    assert!(all.windows(2).all(|w| w[0] < w[1]));
    assert_eq!(all, vec![0, 1, 5, 6, 7, 8, 12, 13]);
}

#[test]
fn line_numbers_follow_each_side() {
    let changes = diff_changes("x\ny\nz\n", "x\nq\nz\nw\n");
    let lines = number_lines(&changes, &Vec::new());
    let mut old_expected = 1;
    let mut new_expected = 1;
    let mut last_old = 0;
    let mut last_new = 0;
    for l in &lines {
        match l.tag {
            E => {
                assert_eq!(l.old_num, Some(old_expected));
                assert_eq!(l.new_num, Some(new_expected));
                old_expected += 1;
                new_expected += 1;
            }
            D => {
                assert_eq!((l.old_num, l.new_num), (Some(old_expected), None));
                old_expected += 1;
            }
            I => {
                assert_eq!((l.old_num, l.new_num), (None, Some(new_expected)));
                new_expected += 1;
            }
        }
        if let Some(n) = l.old_num {
            assert!(n > last_old);
            last_old = n;
        }
        if let Some(n) = l.new_num {
            assert!(n > last_new);
            last_new = n;
        }
    }
    assert_eq!(old_expected, 4);
    assert_eq!(new_expected, 5);
}

#[test]
fn highlights_attach_by_position() {
    let changes = vec![(E, "a".to_string()), (I, "b".to_string())];
    let spans = vec![vec![Span { r: 1, g: 2, b: 3, text: "a".to_string() }]];
    let lines = number_lines(&changes, &spans);
    assert_eq!(lines.len(), 2);
    let first = lines[0].highlighted.as_ref().unwrap();
    assert_eq!((first[0].r, first[0].g, first[0].b, first[0].text.as_str()), (1, 2, 3, "a"));
    assert!(lines[1].highlighted.is_none());
}

#[test]
fn line_breaks_are_trimmed() {
    assert_eq!(trim_newlines("abc\n\n"), "abc");
    assert_eq!(trim_newlines("\n"), "");
    assert_eq!(trim_newlines("a\nb"), "a\nb");
    let changes = diff_changes("", "one\ntwo");
    let got: Vec<(LineTag, String)> = changes.iter().map(|(t, s)| (*t, s.clone())).collect();
    assert_eq!(got, vec![(I, "one".to_string()), (I, "two".to_string())]);
}

#[test]
fn assembled_hunks_number_and_cut() {
    let changes = diff_changes("1\n2\n3\n4\n5\n6\n", "1\n2\n3\n4\n5\nsix\n");
    let hunks = assemble_hunks(&changes, &Vec::new(), 1);
    assert_eq!(hunks.len(), 1);
    let got: Vec<(Option<usize>, Option<usize>, String)> =
        hunks[0].lines.iter().map(|l| (l.old_num, l.new_num, l.content.clone())).collect();
    assert_eq!(
        got,
        vec![
            (Some(5), Some(5), "5".to_string()),
            (Some(6), None, "6".to_string()),
            (None, Some(6), "six".to_string())
        ]
    );
}
