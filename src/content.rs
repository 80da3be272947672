use vstd::prelude::*;
use vstd::string::StringSliceAdditionalSpecFns;

use crate::hunks::{extract_hunks, extracted};
use crate::types::{
    copy_spans, hunks_view, lines_view, spans_view, DiffHunk, DiffLine, LineTag, LineView, Span,
    SpanView,
};

verus! {

/// What the line differ yields for two texts: each line of the two texts in diff
/// order, tagged as kept, deleted or inserted, with its line break.
pub uninterp spec fn line_diff_of(old: Seq<char>, new: Seq<char>) -> Seq<(LineTag, Seq<char>)>;

/// A lowercase form of a text.
pub uninterp spec fn lower_of(s: Seq<char>) -> Seq<char>;

pub open spec fn changes_view(c: Seq<(LineTag, String)>) -> Seq<(LineTag, Seq<char>)> {
    c.map_values(|x: (LineTag, String)| (x.0, x.1@))
}

/// Relies on similar's `TextDiff::from_lines` and `iter_all_changes`: the lines of
/// the two texts, each tagged, in diff order.
#[verifier::external_body]
fn raw_line_diff(old: &str, new: &str) -> (r: Vec<(LineTag, String)>)
    ensures
        changes_view(r@) == line_diff_of(old@, new@),
{
    similar::TextDiff::from_lines(old, new).iter_all_changes().map(|c| {
        let tag = match c.tag() {
            similar::ChangeTag::Equal => LineTag::Equal,
            similar::ChangeTag::Delete => LineTag::Delete,
            similar::ChangeTag::Insert => LineTag::Insert,
        };
        (tag, c.value().to_string())
    }).collect()
}

/// An ASCII character in lower case: `A` to `Z` become `a` to `z`, the rest stay.
pub open spec fn ascii_lower(c: char) -> char {
    if 'A' <= c && c <= 'Z' {
        ((c as u8) + 32u8) as char
    } else {
        c
    }
}

/// Whether every character of a text is ASCII.
pub open spec fn all_ascii(s: Seq<char>) -> bool {
    forall|k: int| 0 <= k < s.len() ==> (#[trigger] s[k] as u32) < 128
}

/// Relies on `str::to_lowercase`: the result depends on the characters alone, the
/// empty text stays empty, and an ASCII text has its letters `A` to `Z` lowered
/// one for one.
#[verifier::external_body]
fn lowercase(s: &str) -> (r: String)
    ensures
        r@ == lower_of(s@),
        s@.len() == 0 ==> r@.len() == 0,
        all_ascii(s@) ==> r@ == s@.map_values(|c: char| ascii_lower(c)),
{
    s.to_lowercase()
}

/// A text without the line breaks at its end.
pub open spec fn strip_newlines(s: Seq<char>) -> Seq<char>
    decreases s.len(),
{
    if s.len() > 0 && s.last() == '\n' {
        strip_newlines(s.drop_last())
    } else {
        s
    }
}

/// The diff with the line break taken off each line.
pub open spec fn trimmed(c: Seq<(LineTag, Seq<char>)>) -> Seq<(LineTag, Seq<char>)> {
    c.map_values(|x: (LineTag, Seq<char>)| (x.0, strip_newlines(x.1)))
}

proof fn lemma_strip_prefix(s: Seq<char>, n: int)
    requires
        0 <= n <= s.len(),
        forall|k: int| n <= k < s.len() ==> s[k] == '\n',
    ensures
        strip_newlines(s) == strip_newlines(s.subrange(0, n)),
    decreases s.len(),
{
    if s.len() > n {
        assert(s.drop_last() =~= s.subrange(0, s.len() - 1));
        assert(s.drop_last().subrange(0, n) =~= s.subrange(0, n));
        lemma_strip_prefix(s.drop_last(), n);
    } else {
        assert(s.subrange(0, n) =~= s);
    }
}

/// A copy of `s` without the line breaks at its end.
pub fn trim_newlines(s: &str) -> (r: String)
    ensures
        r@ == strip_newlines(s@),
{
    let mut n = s.unicode_len();
    while n > 0 && s.get_char(n - 1) == '\n'
        invariant
            n <= s@.len(),
            forall|k: int| n <= k < s@.len() ==> s@[k] == '\n',
        decreases n,
    {
        n -= 1;
    }
    let kept = s.substring_char(0, n);
    proof {
        lemma_strip_prefix(s@, n as int);
        let p = s@.subrange(0, n as int);
        if p.len() > 0 {
            assert(p.last() != '\n');
        }
    }
    kept.to_string()
}

/// The diff with the line break taken off each line.
pub fn trim_changes(raw: &Vec<(LineTag, String)>) -> (r: Vec<(LineTag, String)>)
    ensures
        changes_view(r@) == trimmed(changes_view(raw@)),
{
    let mut out: Vec<(LineTag, String)> = Vec::new();
    let mut i: usize = 0;
    while i < raw.len()
        invariant
            i <= raw@.len(),
            out@.len() == i,
            forall|k: int|
                0 <= k < i ==> #[trigger] out@[k].0 == raw@[k].0 && out@[k].1@ == strip_newlines(
                    raw@[k].1@,
                ),
        decreases raw@.len() - i,
    {
        let (tag, text) = &raw[i];
        out.push((*tag, trim_newlines(text.as_str())));
        i += 1;
    }
    assert(changes_view(out@) =~= trimmed(changes_view(raw@)));
    out
}

/// The line-level diff of two texts, each line without its line break.
pub fn diff_changes(old: &str, new: &str) -> (r: Vec<(LineTag, String)>)
    ensures
        changes_view(r@) == trimmed(line_diff_of(old@, new@)),
{
    let raw = raw_line_diff(old, new);
    trim_changes(&raw)
}

/// How many of the first `i` lines belong to the old text (kept or deleted).
pub open spec fn old_count(c: Seq<(LineTag, Seq<char>)>, i: int) -> nat
    decreases i,
{
    if i <= 0 {
        0
    } else {
        old_count(c, i - 1) + if c[i - 1].0 != LineTag::Insert {
            1nat
        } else {
            0nat
        }
    }
}

/// How many of the first `i` lines belong to the new text (kept or inserted).
pub open spec fn new_count(c: Seq<(LineTag, Seq<char>)>, i: int) -> nat
    decreases i,
{
    if i <= 0 {
        0
    } else {
        new_count(c, i - 1) + if c[i - 1].0 != LineTag::Delete {
            1nat
        } else {
            0nat
        }
    }
}

/// Line `i` of the flat diff with its numbers: a kept or deleted line carries its
/// number in the old text, a kept or inserted one its number in the new text, both
/// counted from 1; the highlight of the same position, where there is one.
pub open spec fn numbered_line(
    c: Seq<(LineTag, Seq<char>)>,
    hl: Seq<Seq<SpanView>>,
    i: int,
) -> LineView {
    LineView {
        old_num: if c[i].0 != LineTag::Insert {
            Some((old_count(c, i) + 1) as usize)
        } else {
            None
        },
        new_num: if c[i].0 != LineTag::Delete {
            Some((new_count(c, i) + 1) as usize)
        } else {
            None
        },
        tag: c[i].0,
        content: c[i].1,
        highlighted: if i < hl.len() {
            Some(hl[i])
        } else {
            None
        },
    }
}

/// The numbered lines of a flat diff.
pub open spec fn numbered(c: Seq<(LineTag, Seq<char>)>, hl: Seq<Seq<SpanView>>) -> Seq<LineView> {
    Seq::new(c.len(), |i: int| numbered_line(c, hl, i))
}

pub open spec fn highlights_view(h: Seq<Vec<Span>>) -> Seq<Seq<SpanView>> {
    h.map_values(|v: Vec<Span>| spans_view(v@))
}

proof fn lemma_counts_bounded(c: Seq<(LineTag, Seq<char>)>, i: int)
    requires
        0 <= i,
    ensures
        old_count(c, i) <= i,
        new_count(c, i) <= i,
    decreases i,
{
    if i > 0 {
        lemma_counts_bounded(c, i - 1);
    }
}

/// Number the lines of a flat diff in the old and the new text, and attach to each
/// the highlight of its position.
pub fn number_lines(changes: &Vec<(LineTag, String)>, highlights: &Vec<Vec<Span>>) -> (r: Vec<
    DiffLine,
>)
    ensures
        r@.len() == changes@.len(),
        lines_view(r@) == numbered(changes_view(changes@), highlights_view(highlights@)),
{
    let ghost c = changes_view(changes@);
    let ghost hl = highlights_view(highlights@);
    let mut out: Vec<DiffLine> = Vec::new();
    let mut olds: usize = 0;
    let mut news: usize = 0;
    let mut i: usize = 0;
    while i < changes.len()
        invariant
            c == changes_view(changes@),
            hl == highlights_view(highlights@),
            i <= changes@.len(),
            out@.len() == i,
            olds == old_count(c, i as int),
            news == new_count(c, i as int),
            forall|k: int| 0 <= k < i ==> #[trigger] out@[k]@ == numbered_line(c, hl, k),
        decreases changes@.len() - i,
    {
        proof {
            lemma_counts_bounded(c, i as int);
        }
        let (tag, text) = &changes[i];
        let old_num = if *tag != LineTag::Insert {
            Some(olds + 1)
        } else {
            None
        };
        let new_num = if *tag != LineTag::Delete {
            Some(news + 1)
        } else {
            None
        };
        let highlighted = if i < highlights.len() {
            Some(copy_spans(&highlights[i]))
        } else {
            None
        };
        if *tag != LineTag::Insert {
            olds = olds + 1;
        }
        if *tag != LineTag::Delete {
            news = news + 1;
        }
        let line = DiffLine { old_num, new_num, tag: *tag, content: text.clone(), highlighted };
        proof {
            assert(line@ == numbered_line(c, hl, i as int));
        }
        out.push(line);
        i += 1;
    }
    assert(lines_view(out@) =~= numbered(c, hl));
    out
}

/// The hunks of a flat diff: its lines numbered, with their highlights, cut into
/// windows with `ctx` lines of context.
pub fn assemble_hunks(
    changes: &Vec<(LineTag, String)>,
    highlights: &Vec<Vec<Span>>,
    ctx: usize,
) -> (r: Vec<DiffHunk>)
    ensures
        hunks_view(r@) == extracted(
            numbered(changes_view(changes@), highlights_view(highlights@)),
            ctx as nat,
        ),
{
    let lines = number_lines(changes, highlights);
    extract_hunks(&lines, ctx)
}

proof fn lemma_counts_increase(c: Seq<(LineTag, Seq<char>)>, i: int, j: int)
    requires
        0 <= i < j <= c.len(),
    ensures
        c[i].0 != LineTag::Insert ==> old_count(c, i) < old_count(c, j),
        c[i].0 != LineTag::Delete ==> new_count(c, i) < new_count(c, j),
        old_count(c, i) <= old_count(c, j),
        new_count(c, i) <= new_count(c, j),
    decreases j - i,
{
    if j > i + 1 {
        lemma_counts_increase(c, i, j - 1);
    }
}

/// Along the flat diff, the old-side numbers and the new-side numbers each rise
/// strictly from one numbered line to the next.
pub proof fn lemma_line_numbers_increase(
    c: Seq<(LineTag, Seq<char>)>,
    hl: Seq<Seq<SpanView>>,
    i: int,
    j: int,
)
    requires
        0 <= i < j < c.len(),
        c.len() <= usize::MAX,
    ensures
        numbered(c, hl)[i].old_num is Some && numbered(c, hl)[j].old_num is Some
            ==> numbered(c, hl)[i].old_num->0 < numbered(c, hl)[j].old_num->0,
        numbered(c, hl)[i].new_num is Some && numbered(c, hl)[j].new_num is Some
            ==> numbered(c, hl)[i].new_num->0 < numbered(c, hl)[j].new_num->0,
{
    lemma_counts_increase(c, i, j);
    lemma_counts_bounded(c, j);
}

/// A diff of a single inserted line that stands for a file whose text is not shown.
pub open spec fn placeholder_line(text: Seq<char>) -> LineView {
    LineView {
        old_num: None,
        new_num: Some(1usize),
        tag: LineTag::Insert,
        content: text,
        highlighted: None,
    }
}

/// One hunk of one line that stands for a file whose text is not shown.
pub fn placeholder_hunks(text: &str) -> (r: Vec<DiffHunk>)
    ensures
        r@.len() == 1,
        r@[0]@ == seq![placeholder_line(text@)],
{
    let line = DiffLine {
        old_num: None,
        new_num: Some(1),
        tag: LineTag::Insert,
        content: text.to_string(),
        highlighted: None,
    };
    let mut lines: Vec<DiffLine> = Vec::new();
    lines.push(line);
    let hunk = DiffHunk { lines };
    proof {
        assert(hunk@ =~= seq![placeholder_line(text@)]);
    }
    let mut r: Vec<DiffHunk> = Vec::new();
    r.push(hunk);
    r
}

/// The extension of a path: what follows the last dot of its last component, where
/// that dot is not the component's first character.
pub open spec fn path_extension(p: Seq<char>) -> Option<Seq<char>> {
    let name_start = last_index_of(p, '/', p.len() as int) + 1;
    let dot = last_index_of(p, '.', p.len() as int);
    if dot > name_start {
        Some(p.subrange(dot + 1, p.len() as int))
    } else {
        None
    }
}

/// The last index below `n` that holds `c`, or -1.
pub open spec fn last_index_of(p: Seq<char>, c: char, n: int) -> int
    decreases n,
{
    if n <= 0 {
        -1
    } else if p[n - 1] == c {
        n - 1
    } else {
        last_index_of(p, c, n - 1)
    }
}

proof fn lemma_last_index_of(p: Seq<char>, c: char, n: int)
    requires
        0 <= n <= p.len(),
    ensures
        -1 <= last_index_of(p, c, n) < n,
        last_index_of(p, c, n) >= 0 ==> p[last_index_of(p, c, n)] == c,
    decreases n,
{
    if n > 0 && p[n - 1] != c {
        lemma_last_index_of(p, c, n - 1);
    }
}

fn find_last(p: &str, c: char, len: usize) -> (r: Option<usize>)
    requires
        len == p@.len(),
    ensures
        match r {
            Some(k) => k == last_index_of(p@, c, len as int),
            None => last_index_of(p@, c, len as int) == -1,
        },
{
    let mut n: usize = len;
    while n > 0
        invariant
            n <= len == p@.len(),
            last_index_of(p@, c, n as int) == last_index_of(p@, c, len as int),
        decreases n,
    {
        if p.get_char(n - 1) == c {
            return Some(n - 1);
        }
        n -= 1;
    }
    None
}

/// The extension of a path, as `path_extension` describes it.
pub fn extension_of(path: &str) -> (r: Option<String>)
    ensures
        match r {
            Some(e) => path_extension(path@) == Some(e@),
            None => path_extension(path@) is None,
        },
{
    let len = path.unicode_len();
    proof {
        lemma_last_index_of(path@, '.', len as int);
        lemma_last_index_of(path@, '/', len as int);
    }
    let name_start: usize = match find_last(path, '/', len) {
        Some(k) => k + 1,
        None => 0,
    };
    match find_last(path, '.', len) {
        Some(dot) => {
            if dot > name_start {
                Some(path.substring_char(dot + 1, len).to_string())
            } else {
                None
            }
        },
        None => None,
    }
}

/// Extensions of files that are shown as binary: images, archives, executables and
/// compiled objects.
pub open spec fn binary_extensions() -> Seq<Seq<char>> {
    seq![
        "png"@, "jpg"@, "jpeg"@, "gif"@, "ico"@, "pdf"@, "zip"@, "tar"@, "gz"@, "bin"@,
        "exe"@, "dll"@, "so"@, "dylib"@, "o"@, "a"@, "class"@, "jar"@, "rlib"@, "rmeta"@, "d"@,
    ]
}

pub(crate) fn same_text(a: &str, b: &str) -> (r: bool)
    ensures
        r == (a@ == b@),
{
    let n = a.unicode_len();
    if n != b.unicode_len() {
        return false;
    }
    let mut i: usize = 0;
    while i < n
        invariant
            n == a@.len() == b@.len(),
            i <= n,
            forall|k: int| 0 <= k < i ==> a@[k] == b@[k],
        decreases n - i,
    {
        if a.get_char(i) != b.get_char(i) {
            return false;
        }
        i += 1;
    }
    assert(a@ =~= b@);
    true
}

/// Whether a lowercase extension is one of the binary ones.
pub fn is_binary_extension(ext: &str) -> (r: bool)
    ensures
        r == binary_extensions().contains(ext@),
{
    let list: [&str; 21] = [
        "png", "jpg", "jpeg", "gif", "ico", "pdf", "zip", "tar", "gz", "bin", "exe", "dll",
        "so", "dylib", "o", "a", "class", "jar", "rlib", "rmeta", "d",
    ];
    let mut i: usize = 0;
    while i < 21
        invariant
            i <= 21,
            forall|k: int| 0 <= k < 21 ==> #[trigger] list@[k]@ == binary_extensions()[k],
            forall|k: int| 0 <= k < i ==> binary_extensions()[k] != ext@,
        decreases 21 - i,
    {
        if same_text(list[i], ext) {
            assert(binary_extensions()[i as int] == ext@);
            return true;
        }
        i += 1;
    }
    false
}

/// Whether a path names a binary file by its extension, in any case.
pub fn is_binary_path(path: &str) -> (r: bool)
    ensures
        r == is_binary_path_spec(path@),
{
    match extension_of(path) {
        Some(ext) => {
            let lower = lowercase(ext.as_str());
            is_binary_extension(lower.as_str())
        },
        None => false,
    }
}

/// Whether a text holds a null byte.
pub fn has_nul(s: &str) -> (r: bool)
    ensures
        r == s.spec_bytes().contains(0u8),
{
    let bytes = s.as_bytes();
    let mut i: usize = 0;
    while i < bytes.len()
        invariant
            bytes@ == s.spec_bytes(),
            i <= bytes@.len(),
            forall|k: int| 0 <= k < i ==> bytes@[k] != 0u8,
        decreases bytes@.len() - i,
    {
        if bytes[i] == 0 {
            return true;
        }
        i += 1;
    }
    false
}

/// The diff to show in place of the texts' own when the file is binary, by its
/// extension or by a null byte in either text.
pub fn binary_placeholder(path: &str, old: &str, new: &str) -> (r: Option<Vec<DiffHunk>>)
    ensures
        r is Some <==> (is_binary_path_spec(path@) || old.spec_bytes().contains(0u8)
            || new.spec_bytes().contains(0u8)),
        r is Some ==> r->0@.len() == 1 && r->0@[0]@ == seq![placeholder_line("[Binary file]"@)],
{
    if is_binary_path(path) || has_nul(old) || has_nul(new) {
        Some(placeholder_hunks("[Binary file]"))
    } else {
        None
    }
}

/// Whether a path names a binary file by its extension, in any case.
pub open spec fn is_binary_path_spec(p: Seq<char>) -> bool {
    match path_extension(p) {
        Some(e) => binary_extensions().contains(lower_of(e)),
        None => false,
    }
}

/// The new side of a working-tree comparison: the index's text in staged mode;
/// otherwise the file on disk, or the index's text where the file cannot be read;
/// the empty text where neither is there.
pub fn new_side_text(staged: bool, disk: Option<String>, index: Option<String>) -> (r: String)
    ensures
        r@ == if staged {
            match index {
                Some(t) => t@,
                None => Seq::empty(),
            }
        } else {
            match disk {
                Some(t) => t@,
                None => match index {
                    Some(t) => t@,
                    None => Seq::empty(),
                },
            }
        },
{
    if !staged {
        if let Some(t) = disk {
            return t;
        }
    }
    match index {
        Some(t) => t,
        None => String::new(),
    }
}

/// The text of the single line shown in place of a file's diff, if any, as
/// `content_placeholder` describes it.
pub open spec fn placeholder_text(path: Seq<char>, texts: Option<(&str, &str)>) -> Option<Seq<char>> {
    if is_binary_path_spec(path) {
        Some("[Binary file]"@)
    } else {
        match texts {
            None => Some("[Unable to read file]"@),
            Some((old, new)) => if old.spec_bytes().contains(0u8) || new.spec_bytes().contains(0u8) {
                Some("[Binary file]"@)
            } else {
                None
            },
        }
    }
}

/// The diff to show in place of the texts' own, if any. A path with a binary
/// extension gets the binary placeholder whatever the texts (they need not be
/// read: pass `None`); otherwise texts that could not be read (`None`) get the
/// unreadable placeholder, and texts of which either holds a null byte the binary
/// one. `None` means that the texts are to be diffed.
pub fn content_placeholder(path: &str, texts: Option<(&str, &str)>) -> (r: Option<Vec<DiffHunk>>)
    ensures
        match placeholder_text(path@, texts) {
            Some(t) => r is Some && r->0@.len() == 1 && r->0@[0]@ == seq![placeholder_line(t)],
            None => r is None,
        },
{
    if is_binary_path(path) {
        return Some(placeholder_hunks("[Binary file]"));
    }
    match texts {
        None => Some(placeholder_hunks("[Unable to read file]")),
        Some((old, new)) => binary_placeholder(path, old, new),
    }
}

} // verus!
