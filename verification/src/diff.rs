use vstd::prelude::*;

verus! {

/// How one line of a hunk relates the old version to the new one.
#[derive(Debug, Clone, Copy, PartialEq, Eq, Structural)]
pub enum LineChangeType {
    Context,
    Addition,
    Deletion,
}

/// One classified line inside a hunk; only additions carry text.
#[derive(Debug, Clone)]
pub struct LineChange {
    pub change_type: LineChangeType,
    pub content: String,
}

#[verifier::ext_equal]
pub ghost struct LineChangeView {
    pub change_type: LineChangeType,
    pub content: Seq<char>,
}

impl View for LineChange {
    type V = LineChangeView;

    open spec fn view(&self) -> LineChangeView {
        LineChangeView { change_type: self.change_type, content: self.content@ }
    }
}

impl DeepView for LineChange {
    type V = LineChangeView;

    open spec fn deep_view(&self) -> LineChangeView {
        self.view()
    }
}

/// One contiguous block of change: where it starts in the pre-change file,
/// and its classified lines in order.
#[derive(Debug, Clone)]
pub struct DiffHunk {
    pub old_start: usize,
    pub lines: Vec<LineChange>,
}

#[verifier::ext_equal]
pub ghost struct DiffHunkView {
    pub old_start: int,
    pub lines: Seq<LineChangeView>,
}

impl View for DiffHunk {
    type V = DiffHunkView;

    open spec fn view(&self) -> DiffHunkView {
        DiffHunkView { old_start: self.old_start as int, lines: self.lines.deep_view() }
    }
}

impl DeepView for DiffHunk {
    type V = DiffHunkView;

    open spec fn deep_view(&self) -> DiffHunkView {
        self.view()
    }
}

/// One modified file: its path, its complete pre-change content (absent for a
/// newly created file), and its hunks in order.
#[derive(Debug, Clone)]
pub struct FileChange {
    pub path: String,
    pub old_content: Option<String>,
    pub hunks: Vec<DiffHunk>,
}

#[verifier::ext_equal]
pub ghost struct FileChangeView {
    pub path: Seq<char>,
    pub old_content: Option<Seq<char>>,
    pub hunks: Seq<DiffHunkView>,
}

impl View for FileChange {
    type V = FileChangeView;

    open spec fn view(&self) -> FileChangeView {
        FileChangeView {
            path: self.path@,
            old_content: match self.old_content {
                Option::Some(c) => Option::Some(c@),
                Option::None => Option::None,
            },
            hunks: self.hunks.deep_view(),
        }
    }
}

impl DeepView for FileChange {
    type V = FileChangeView;

    open spec fn deep_view(&self) -> FileChangeView {
        self.view()
    }
}

/// The resolved change set of one commit: its file changes in order.
#[derive(Debug, Clone)]
pub struct CommitMetadata {
    pub changes: Vec<FileChange>,
}

impl View for CommitMetadata {
    type V = Seq<FileChangeView>;

    open spec fn view(&self) -> Seq<FileChangeView> {
        self.changes.deep_view()
    }
}

/// Why a commit could not be loaded.
#[derive(Debug, Clone, Copy, PartialEq, Eq, Structural)]
pub enum LoadError {
    InvalidInput,
    InvalidRepository,
    NotFound,
    UnreadableContent,
}

impl LoadError {
    /// A short description of the failure, for the driver to show.
    pub fn message(&self) -> (r: &'static str)
        ensures
            *self is InvalidInput ==> r@ == "invalid arguments"@,
            *self is InvalidRepository ==> r@ == "not a version-controlled directory"@,
            *self is NotFound ==> r@ == "commit reference does not resolve"@,
            *self is UnreadableContent ==> r@ == "a file's content cannot be read"@,
    {
        match self {
            LoadError::InvalidInput => "invalid arguments",
            LoadError::InvalidRepository => "not a version-controlled directory",
            LoadError::NotFound => "commit reference does not resolve",
            LoadError::UnreadableContent => "a file's content cannot be read",
        }
    }
}

} // verus!

verus! {

use crate::buffer::split_lines;
use crate::buffer::EditorBuffer;

/// A decimal digit.
pub open spec fn is_digit(c: char) -> bool {
    '0' <= c && c <= '9'
}

/// Whether `p` is a prefix of `s`.
pub open spec fn spec_has_prefix(s: Seq<char>, p: Seq<char>) -> bool {
    p.len() <= s.len() && s.take(p.len() as int) == p
}

/// The value of the digit prefix of `s` continued from `acc`, clamped to
/// `usize`; it stops at the first character that is not a digit.
pub open spec fn num_prefix_val(s: Seq<char>, acc: int) -> int
    decreases s.len(),
{
    if s.len() == 0 || !is_digit(s[0]) {
        acc
    } else {
        let d = s[0] as int - '0' as int;
        let a2 = if acc * 10 + d > usize::MAX {
            usize::MAX as int
        } else {
            acc * 10 + d
        };
        num_prefix_val(s.drop_first(), a2)
    }
}

/// A patch line that introduces the new version of a file.
pub open spec fn is_file_header(l: Seq<char>) -> bool {
    spec_has_prefix(l, "+++ b/"@)
}

/// A patch line that names the old version of a file.
pub open spec fn is_old_header(l: Seq<char>) -> bool {
    spec_has_prefix(l, "--- a/"@)
}

/// A patch line whose new version is no file at all: the file was deleted.
pub open spec fn is_removed_header(l: Seq<char>) -> bool {
    spec_has_prefix(l, "+++ /dev/null"@)
}

/// A patch line that introduces a hunk.
pub open spec fn is_hunk_header(l: Seq<char>) -> bool {
    spec_has_prefix(l, "@@ -"@)
}

/// A patch line that introduces the next file's headers, ending the hunk
/// before it.
pub open spec fn is_diff_start(l: Seq<char>) -> bool {
    spec_has_prefix(l, "diff "@)
}

/// The zero-based starting line of a hunk header: the decimal number after
/// `"@@ -"`, which the patch counts from one.
pub open spec fn hunk_start_of(l: Seq<char>) -> int {
    let v = num_prefix_val(l.skip(4), 0);
    if v >= 1 {
        v - 1
    } else {
        0
    }
}

/// Whether the last parsed file already has a hunk to put lines into.
pub open spec fn in_open_hunk(files: Seq<FileChangeView>) -> bool {
    files.len() > 0 && files.last().hunks.len() > 0
}

/// The parser's state between lines: the files built so far, and whether a
/// hunk is open, so that `+`, `-` and space lines are content rather than
/// file headers.
#[verifier::ext_equal]
pub ghost struct PatchState {
    pub files: Seq<FileChangeView>,
    pub open: bool,
    pub attached: bool,
    pub old_path: Option<Seq<char>>,
}

/// What one patch line contributes: a new file record, a new hunk, one
/// classified line of the open hunk, or nothing.
pub open spec fn patch_step(st: PatchState, l: Seq<char>) -> PatchState {
    if !st.open && is_old_header(l) {
        PatchState { old_path: Option::Some(l.skip(6)), attached: false, ..st }
    } else if !st.open && is_file_header(l) {
        PatchState {
            files: st.files.push(
                FileChangeView { path: l.skip(6), old_content: Option::None, hunks: Seq::empty() },
            ),
            open: false,
            attached: true,
            old_path: Option::None,
        }
    } else if !st.open && is_removed_header(l) {
        match st.old_path {
            Option::Some(p) => PatchState {
                files: st.files.push(
                    FileChangeView { path: p, old_content: Option::None, hunks: Seq::empty() },
                ),
                open: false,
                attached: true,
                old_path: Option::None,
            },
            Option::None => PatchState { attached: false, old_path: Option::None, ..st },
        }
    } else if is_diff_start(l) {
        PatchState { files: st.files, open: false, attached: false, old_path: Option::None }
    } else if is_hunk_header(l) && st.attached && st.files.len() > 0 {
        let f = st.files.last();
        PatchState {
            files: st.files.update(
                st.files.len() - 1,
                FileChangeView {
                    hunks: f.hunks.push(
                        DiffHunkView { old_start: hunk_start_of(l), lines: Seq::empty() },
                    ),
                    ..f
                },
            ),
            open: true,
            attached: st.attached,
            old_path: st.old_path,
        }
    } else if st.open && in_open_hunk(st.files) && l.len() >= 1 && (l[0] == '+' || l[0] == '-'
        || l[0] == ' ') {
        let kind = if l[0] == '+' {
            LineChangeType::Addition
        } else if l[0] == '-' {
            LineChangeType::Deletion
        } else {
            LineChangeType::Context
        };
        let f = st.files.last();
        let h = f.hunks.last();
        PatchState {
            files: st.files.update(
                st.files.len() - 1,
                FileChangeView {
                    hunks: f.hunks.update(
                        f.hunks.len() - 1,
                        DiffHunkView {
                            lines: h.lines.push(
                                LineChangeView { change_type: kind, content: l.skip(1) },
                            ),
                            ..h
                        },
                    ),
                    ..f
                },
            ),
            open: st.open,
            attached: st.attached,
            old_path: st.old_path,
        }
    } else {
        st
    }
}

/// The parser's state after the first `n` patch lines.
pub open spec fn patch_fold(lines: Seq<Seq<char>>, n: int) -> PatchState
    decreases n,
{
    if n <= 0 {
        PatchState { files: Seq::empty(), open: false, attached: false, old_path: Option::None }
    } else {
        patch_step(patch_fold(lines, n - 1), lines[n - 1])
    }
}

/// The file changes described by a whole patch text.
pub open spec fn patch_files(text: Seq<char>) -> Seq<FileChangeView> {
    let lines = split_lines(text);
    patch_fold(lines, lines.len() as int).files
}

/// Whether `p` is a prefix of `s`.
fn has_prefix(s: &str, p: &str) -> (r: bool)
    ensures
        r == spec_has_prefix(s@, p@),
{
    let n = s.unicode_len();
    let m = p.unicode_len();
    if m > n {
        return false;
    }
    let mut i: usize = 0;
    while i < m
        invariant
            i <= m,
            m <= n,
            n == s@.len(),
            m == p@.len(),
            forall|j: int| 0 <= j < i ==> s@[j] == p@[j],
        decreases m - i,
    {
        if s.get_char(i) != p.get_char(i) {
            return false;
        }
        i = i + 1;
    }
    proof {
        assert(s@.take(p@.len() as int) =~= p@);
    }
    true
}

/// Reads the decimal number that starts at character `from` of `l`, clamped
/// to `usize`.
fn parse_number_at(l: &str, from: usize) -> (r: usize)
    requires
        from <= l@.len(),
    ensures
        r as int == num_prefix_val(l@.skip(from as int), 0),
{
    let n = l.unicode_len();
    let mut acc: usize = 0;
    let mut j: usize = from;
    while j < n && l.get_char(j) >= '0' && l.get_char(j) <= '9'
        invariant
            from <= j <= n,
            n == l@.len(),
            num_prefix_val(l@.skip(from as int), 0) == num_prefix_val(l@.skip(j as int), acc as int),
        decreases n - j,
    {
        let c = l.get_char(j);
        let d: usize = ((c as u32) - ('0' as u32)) as usize;
        let ghost pre = acc as int;
        let cap: usize = usize::MAX / 10;
        let rem: usize = usize::MAX % 10;
        if acc > cap || (acc == cap && d > rem) {
            acc = usize::MAX;
        } else {
            acc = acc * 10 + d;
        }
        proof {
            assert(l@.skip(j as int).drop_first() =~= l@.skip(j + 1));
            assert(l@.skip(j as int)[0] == l@[j as int]);
            assert(acc as int == if pre * 10 + d > usize::MAX {
                usize::MAX as int
            } else {
                pre * 10 + d
            });
        }
        j = j + 1;
    }
    proof {
        if j < n {
            assert(!is_digit(l@.skip(j as int)[0]));
        }
    }
    acc
}

/// Parses a unified patch, as the version-control tool prints it, into file
/// change records: one per `+++ b/` header — a deleted file, whose new
/// version is `/dev/null`, gets its record under its old name — one hunk per
/// `@@ -` header of the most recent header block, and the classified content
/// lines of each hunk. Pre-change file contents are not part of a patch;
/// every record's `old_content` is left empty for the caller to fill in.
pub fn parse_patch(text: &str) -> (r: Vec<FileChange>)
    ensures
        r.deep_view() == patch_files(text@),
{
    let lines = EditorBuffer::from_content(text).lines;
    let ghost lines_v = split_lines(text@);
    let mut files: Vec<FileChange> = Vec::new();
    let mut open = false;
    let mut attached = false;
    let mut old_path: Option<String> = Option::None;
    proof {
        reveal_strlit("+++ b/");
        reveal_strlit("--- a/");
        reveal_strlit("+++ /dev/null");
        reveal_strlit("diff ");
        reveal_strlit("@@ -");
        assert(files.deep_view() =~= Seq::<FileChangeView>::empty());
    }
    let mut i: usize = 0;
    while i < lines.len()
        invariant
            i <= lines.len(),
            lines.deep_view() == lines_v,
            lines@.len() == lines_v.len(),
            files.deep_view() =~~= patch_fold(lines_v, i as int).files,
            open == patch_fold(lines_v, i as int).open,
            attached == patch_fold(lines_v, i as int).attached,
            old_path.deep_view() == patch_fold(lines_v, i as int).old_path,
        decreases lines.len() - i,
    {
        let l = &lines[i];
        let ghost lv = lines_v[i as int];
        proof {
            assert(l@ == lv);
        }
        let ghost st = patch_fold(lines_v, i as int);
        let ghost st2 = patch_step(st, lv);
        if !open && has_prefix(l.as_str(), "--- a/") {
            proof {
                reveal_strlit("--- a/");
            }
            let n = l.as_str().unicode_len();
            old_path = Option::Some(l.as_str().substring_char(6, n).to_owned());
            attached = false;
        } else if !open && has_prefix(l.as_str(), "+++ b/") {
            proof {
                reveal_strlit("+++ b/");
            }
            let n = l.as_str().unicode_len();
            let path = l.as_str().substring_char(6, n).to_owned();
            let ghost pre = files.deep_view();
            files.push(FileChange { path, old_content: Option::None, hunks: Vec::new() });
            attached = true;
            old_path = Option::None;
            proof {
                assert(files.deep_view() =~= pre.push(files.deep_view().last()));
                assert(files.deep_view() =~~= st2.files);
            }
        } else if !open && has_prefix(l.as_str(), "+++ /dev/null") {
            proof {
                reveal_strlit("+++ /dev/null");
            }
            let prev = old_path;
            old_path = Option::None;
            match prev {
                Option::Some(path) => {
                    let ghost pre = files.deep_view();
                    files.push(FileChange { path, old_content: Option::None, hunks: Vec::new() });
                    attached = true;
                    proof {
                        assert(files.deep_view() =~= pre.push(files.deep_view().last()));
                        assert(files.deep_view() =~~= st2.files);
                    }
                },
                Option::None => {
                    attached = false;
                },
            }
        } else if has_prefix(l.as_str(), "diff ") {
            open = false;
            attached = false;
            old_path = Option::None;
        } else if has_prefix(l.as_str(), "@@ -") && attached && files.len() > 0 {
            proof {
                reveal_strlit("@@ -");
            }
            let start_one = parse_number_at(l.as_str(), 4);
            let old_start = if start_one >= 1 {
                start_one - 1
            } else {
                0
            };
            let ghost pre = files.deep_view();
            match files.pop() {
                Option::Some(mut f) => {
                    f.hunks.push(DiffHunk { old_start, lines: Vec::new() });
                    files.push(f);
                    proof {
                        assert(files.deep_view() =~~= st2.files);
                    }
                },
                Option::None => {},
            }
            open = true;
        } else {
            let n = l.as_str().unicode_len();
            let first = if n >= 1 {
                l.as_str().get_char(0)
            } else {
                'x'
            };
            let is_content = n >= 1 && (first == '+' || first == '-' || first == ' ');
            let has_hunk = files.len() > 0 && {
                let last = files.len() - 1;
                files[last].hunks.len() > 0
            };
            if open && has_hunk && is_content {
                let kind = if first == '+' {
                    LineChangeType::Addition
                } else if first == '-' {
                    LineChangeType::Deletion
                } else {
                    LineChangeType::Context
                };
                let content = l.as_str().substring_char(1, n).to_owned();
                match files.pop() {
                    Option::Some(mut f) => {
                        match f.hunks.pop() {
                            Option::Some(mut h) => {
                                h.lines.push(LineChange { change_type: kind, content });
                                f.hunks.push(h);
                            },
                            Option::None => {},
                        }
                        files.push(f);
                        proof {
                            assert(files.deep_view() =~~= st2.files);
                        }
                    },
                    Option::None => {},
                }
            } else {
                proof {
                    assert(files.deep_view() =~~= st2.files);
                }
            }
        }
        i = i + 1;
    }
    proof {
        assert(files.deep_view() =~~= patch_files(text@));
    }
    files
}

} // verus!
