use vstd::prelude::*;

verus! {

/// Splits a text into its lines: the chunks between newline characters.
/// The result always holds at least one line; a trailing newline yields a
/// trailing empty line, so joining the lines with newlines restores the text.
pub open spec fn split_lines(s: Seq<char>) -> Seq<Seq<char>>
    decreases s.len(),
{
    if s.len() == 0 {
        seq![Seq::<char>::empty()]
    } else if s.last() == '\n' {
        split_lines(s.drop_last()).push(Seq::<char>::empty())
    } else {
        let r = split_lines(s.drop_last());
        r.update(r.len() - 1, r.last().push(s.last()))
    }
}

/// Joins a non-empty list of lines with newline characters.
pub open spec fn join_lines(ls: Seq<Seq<char>>) -> Seq<char>
    decreases ls.len(),
{
    if ls.len() <= 1 {
        if ls.len() == 0 {
            Seq::<char>::empty()
        } else {
            ls[0]
        }
    } else {
        join_lines(ls.drop_last()).push('\n') + ls.last()
    }
}

pub proof fn lemma_split_lines_nonempty(s: Seq<char>)
    ensures
        split_lines(s).len() >= 1,
    decreases s.len(),
{
    if s.len() > 0 {
        lemma_split_lines_nonempty(s.drop_last());
    }
}

/// Joining the split of any text restores the text exactly.
pub proof fn lemma_lines_round_trip(s: Seq<char>)
    ensures
        join_lines(split_lines(s)) =~= s,
    decreases s.len(),
{
    if s.len() == 0 {
    } else {
        lemma_lines_round_trip(s.drop_last());
        lemma_split_lines_nonempty(s.drop_last());
        if s.last() == '\n' {
            let r2 = split_lines(s);
            assert(r2.drop_last() =~= split_lines(s.drop_last()));
            assert(r2.last() =~= Seq::<char>::empty());
            assert(join_lines(r2) =~= join_lines(split_lines(s.drop_last())).push('\n'));
            assert(join_lines(r2) =~= s.drop_last().push('\n'));
            assert(s.drop_last().push('\n') =~= s);
        } else {
            let r = split_lines(s.drop_last());
            let r2 = split_lines(s);
            if r.len() == 1 {
                assert(join_lines(r) =~= r[0]);
                assert(r2.len() == 1);
                assert(join_lines(r2) =~= r[0].push(s.last()));
                assert(join_lines(r2) =~= s.drop_last().push(s.last()));
                assert(s.drop_last().push(s.last()) =~= s);
            } else {
                assert(r2.drop_last() =~= r.drop_last());
                assert(r2.last() =~= r.last().push(s.last()));
                assert(join_lines(r2) =~= join_lines(r.drop_last()).push('\n')
                    + r.last().push(s.last()));
                assert(join_lines(r) =~= join_lines(r.drop_last()).push('\n') + r.last());
                assert(join_lines(r.drop_last()).push('\n') + r.last() =~= s.drop_last());
                assert(join_lines(r2) =~= (join_lines(r.drop_last()).push('\n')
                    + r.last()).push(s.last()));
                assert(join_lines(r2) =~= s.drop_last().push(s.last()));
                assert(s.drop_last().push(s.last()) =~= s);
            }
        }
    }
}

} // verus!

verus! {

/// A sequence of `n` empty lines.
pub open spec fn empty_lines(n: nat) -> Seq<Seq<char>> {
    Seq::new(n, |i: int| Seq::<char>::empty())
}

/// The line list padded with empty lines so that index `line` exists.
pub open spec fn pad_to(lines: Seq<Seq<char>>, line: int) -> Seq<Seq<char>> {
    if line < lines.len() {
        lines
    } else {
        lines + empty_lines((line + 1 - lines.len()) as nat)
    }
}

/// A line with one character inserted at column `col`, clamped to the line end.
pub open spec fn line_with_insert(l: Seq<char>, col: int, ch: char) -> Seq<char> {
    let c = if col <= l.len() { col } else { l.len() as int };
    l.take(c) + seq![ch] + l.skip(c)
}

/// A line with the character at column `col` removed.
pub open spec fn line_with_delete(l: Seq<char>, col: int) -> Seq<char> {
    l.take(col) + l.skip(col + 1)
}

/// Relies on String::push: appends the given character to the end of the string.
#[verifier::external_body]
fn push_char(s: &mut String, ch: char)
    ensures
        final(s)@ == old(s)@.push(ch),
{
    s.push(ch)
}

/// The simulated file being typed: an ordered list of text lines (never left
/// empty by its own operations), a zero-based cursor position, and the index
/// of the first visible line.
#[derive(Debug, Clone)]
pub struct EditorBuffer {
    pub lines: Vec<String>,
    pub cursor_line: usize,
    pub cursor_col: usize,
    pub scroll_offset: usize,
}

impl EditorBuffer {
    /// The mathematical content of the buffer: its lines as character sequences.
    pub open spec fn lines_view(&self) -> Seq<Seq<char>> {
        self.lines.deep_view()
    }

    pub fn new() -> (r: Self)
        ensures
            r.lines_view() == seq![Seq::<char>::empty()],
            r.cursor_line == 0,
            r.cursor_col == 0,
            r.scroll_offset == 0,
    {
        let mut lines: Vec<String> = Vec::new();
        lines.push(String::new());
        proof {
            assert(lines.deep_view() =~= seq![Seq::<char>::empty()]);
        }
        EditorBuffer { lines, cursor_line: 0, cursor_col: 0, scroll_offset: 0 }
    }

    /// Builds a buffer whose lines are exactly the lines of `content`;
    /// empty content yields a single empty line.
    pub fn from_content(content: &str) -> (r: Self)
        ensures
            r.lines_view() == split_lines(content@),
            r.cursor_line == 0,
            r.cursor_col == 0,
            r.scroll_offset == 0,
    {
        let n = content.unicode_len();
        let mut done: Vec<String> = Vec::new();
        let mut cur: String = String::new();
        let mut i: usize = 0;
        while i < n
            invariant
                i <= n,
                n == content@.len(),
                done.deep_view().push(cur@) =~= split_lines(content@.take(i as int)),
            decreases n - i,
        {
            let ch = content.get_char(i);
            proof {
                assert(content@.take(i + 1).drop_last() =~= content@.take(i as int));
                assert(content@.take(i + 1).last() == ch);
            }
            if ch == '\n' {
                let ghost old_done = done.deep_view();
                let ghost old_cur = cur@;
                done.push(cur);
                cur = String::new();
                proof {
                    assert(done.deep_view() =~= old_done.push(old_cur));
                    assert(done.deep_view().push(cur@) =~= split_lines(content@.take(i + 1)));
                }
            } else {
                let ghost r = split_lines(content@.take(i as int));
                push_char(&mut cur, ch);
                proof {
                    assert(done.deep_view().push(cur@) =~= r.update(
                        r.len() - 1,
                        r.last().push(ch),
                    ));
                }
            }
            i = i + 1;
        }
        proof {
            assert(content@.take(n as int) =~= content@);
        }
        done.push(cur);
        proof {
            assert(done.deep_view() =~= split_lines(content@));
        }
        EditorBuffer { lines: done, cursor_line: 0, cursor_col: 0, scroll_offset: 0 }
    }

    /// The buffer content rendered back as one text: the lines joined with
    /// newline characters.
    pub fn get_content(&self) -> (r: String)
        ensures
            r@ == join_lines(self.lines_view()),
    {
        if self.lines.len() == 0 {
            return String::new();
        }
        let mut out: String = self.lines[0].clone();
        let mut i: usize = 1;
        while i < self.lines.len()
            invariant
                1 <= i <= self.lines.len(),
                out@ =~= join_lines(self.lines_view().take(i as int)),
            decreases self.lines.len() - i,
        {
            let ghost pre = self.lines_view().take(i as int);
            push_char(&mut out, '\n');
            out.append(self.lines[i].as_str());
            proof {
                assert(self.lines_view().take(i + 1).drop_last() =~= pre);
                assert(self.lines_view().take(i + 1).last() =~= self.lines_view()[i as int]);
                assert(out@ =~= join_lines(self.lines_view().take(i + 1)));
            }
            i = i + 1;
        }
        proof {
            assert(self.lines_view().take(self.lines.len() as int) =~= self.lines_view());
        }
        out
    }
}

} // verus!

verus! {

impl EditorBuffer {
    /// Extends the line list with empty lines until index `line` exists.
    fn pad_lines_to(&mut self, line: usize)
        ensures
            final(self).lines_view() == pad_to(old(self).lines_view(), line as int),
            final(self).lines_view().len() > line,
            final(self).cursor_line == old(self).cursor_line,
            final(self).cursor_col == old(self).cursor_col,
            final(self).scroll_offset == old(self).scroll_offset,
    {
        let ghost orig = self.lines_view();
        while self.lines.len() <= line
            invariant
                self.lines_view() =~= if self.lines_view().len() > line {
                    pad_to(orig, line as int)
                } else {
                    orig + empty_lines((self.lines_view().len() - orig.len()) as nat)
                },
                self.lines_view().len() >= orig.len(),
                self.cursor_line == old(self).cursor_line,
                self.cursor_col == old(self).cursor_col,
                self.scroll_offset == old(self).scroll_offset,
            decreases line + 1 - self.lines.len(),
        {
            let ghost pre = self.lines_view();
            self.lines.push(String::new());
            proof {
                assert(self.lines_view() =~= pre.push(Seq::<char>::empty()));
                if self.lines_view().len() > line {
                    assert(self.lines_view() =~= pad_to(orig, line as int));
                } else {
                    assert(self.lines_view() =~= orig + empty_lines(
                        (self.lines_view().len() - orig.len()) as nat,
                    ));
                }
            }
        }
        proof {
            if orig.len() > line {
                assert(self.lines_view() =~= pad_to(orig, line as int));
            }
        }
    }

    /// Inserts one character into the given line at the given column; the line
    /// list is padded so the line exists, and the column is clamped to the
    /// line's end. Cursor and scroll are untouched.
    pub fn insert_char(&mut self, line: usize, col: usize, ch: char)
        ensures
            final(self).lines_view() == {
                let padded = pad_to(old(self).lines_view(), line as int);
                padded.update(line as int, line_with_insert(padded[line as int], col as int, ch))
            },
            final(self).cursor_line == old(self).cursor_line,
            final(self).cursor_col == old(self).cursor_col,
            final(self).scroll_offset == old(self).scroll_offset,
    {
        self.pad_lines_to(line);
        let ghost padded = self.lines_view();
        let s = self.lines.remove(line);
        let n = s.as_str().unicode_len();
        let c = if col < n {
            col
        } else {
            n
        };
        let mut t = String::new();
        t.append(s.as_str().substring_char(0, c));
        push_char(&mut t, ch);
        t.append(s.as_str().substring_char(c, n));
        self.lines.insert(line, t);
        proof {
            assert(t@ =~= line_with_insert(padded[line as int], col as int, ch));
            assert(self.lines_view() =~= padded.update(
                line as int,
                line_with_insert(padded[line as int], col as int, ch),
            ));
        }
    }

    /// Removes the character at the given column of the given line; out of
    /// range positions are ignored. Cursor and scroll are untouched.
    pub fn delete_char(&mut self, line: usize, col: usize)
        ensures
            final(self).lines_view() == {
                let lines = old(self).lines_view();
                if line < lines.len() && col < lines[line as int].len() {
                    lines.update(line as int, line_with_delete(lines[line as int], col as int))
                } else {
                    lines
                }
            },
            final(self).cursor_line == old(self).cursor_line,
            final(self).cursor_col == old(self).cursor_col,
            final(self).scroll_offset == old(self).scroll_offset,
    {
        let ghost lines = self.lines_view();
        if line < self.lines.len() {
            let s = self.lines.remove(line);
            let n = s.as_str().unicode_len();
            if col < n {
                let mut t = String::new();
                t.append(s.as_str().substring_char(0, col));
                t.append(s.as_str().substring_char(col + 1, n));
                self.lines.insert(line, t);
                proof {
                    assert(t@ =~= line_with_delete(lines[line as int], col as int));
                    assert(self.lines_view() =~= lines.update(
                        line as int,
                        line_with_delete(lines[line as int], col as int),
                    ));
                }
            } else {
                self.lines.insert(line, s);
                proof {
                    assert(self.lines_view() =~= lines);
                }
            }
        }
    }

    /// Inserts a whole line at the given index; the line list is padded so
    /// the index is reachable. Cursor and scroll are untouched.
    pub fn insert_line(&mut self, line: usize, content: String)
        ensures
            final(self).lines_view() == {
                let lines = old(self).lines_view();
                let padded = if line <= lines.len() {
                    lines
                } else {
                    lines + empty_lines((line - lines.len()) as nat)
                };
                padded.insert(line as int, content@)
            },
            final(self).cursor_line == old(self).cursor_line,
            final(self).cursor_col == old(self).cursor_col,
            final(self).scroll_offset == old(self).scroll_offset,
    {
        let ghost lines = self.lines_view();
        while self.lines.len() < line
            invariant
                self.lines_view() =~= if lines.len() >= line {
                    lines
                } else {
                    lines + empty_lines((self.lines_view().len() - lines.len()) as nat)
                },
                self.lines_view().len() >= lines.len(),
                self.lines_view().len() <= line || self.lines_view() =~= lines,
                self.cursor_line == old(self).cursor_line,
                self.cursor_col == old(self).cursor_col,
                self.scroll_offset == old(self).scroll_offset,
            decreases line - self.lines.len(),
        {
            let ghost pre = self.lines_view();
            self.lines.push(String::new());
            proof {
                assert(self.lines_view() =~= pre.push(Seq::<char>::empty()));
                assert(self.lines_view() =~= lines + empty_lines(
                    (self.lines_view().len() - lines.len()) as nat,
                ));
            }
        }
        let ghost padded = self.lines_view();
        let at = if line < self.lines.len() {
            line
        } else {
            self.lines.len()
        };
        self.lines.insert(at, content);
        proof {
            if line > lines.len() {
                assert(padded =~= lines + empty_lines((line - lines.len()) as nat));
            }
            assert(at == line);
            assert(self.lines_view() =~= padded.insert(line as int, content@));
        }
    }

    /// Removes the line at the given index if it exists; a buffer whose last
    /// line was removed gets one empty line back, so it is never empty.
    pub fn delete_line(&mut self, line: usize)
        ensures
            final(self).lines_view() == {
                let lines = old(self).lines_view();
                let removed = if line < lines.len() {
                    lines.remove(line as int)
                } else {
                    lines
                };
                if removed.len() == 0 {
                    seq![Seq::<char>::empty()]
                } else {
                    removed
                }
            },
            final(self).lines_view().len() > 0,
            final(self).cursor_line == old(self).cursor_line,
            final(self).cursor_col == old(self).cursor_col,
            final(self).scroll_offset == old(self).scroll_offset,
    {
        let ghost lines = self.lines_view();
        if line < self.lines.len() {
            self.lines.remove(line);
            proof {
                assert(self.lines_view() =~= lines.remove(line as int));
            }
        }
        if self.lines.len() == 0 {
            self.lines.push(String::new());
            proof {
                assert(self.lines_view() =~= seq![Seq::<char>::empty()]);
            }
        }
    }
}

} // verus!
