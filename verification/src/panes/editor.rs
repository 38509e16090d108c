use vstd::prelude::*;

verus! {

/// The number of decimal digits of `n` (one for zero).
pub open spec fn digits10(n: nat) -> nat
    decreases n,
{
    if n < 10 {
        1
    } else {
        1 + digits10(n / 10)
    }
}

proof fn lemma_digits10_le(n: nat)
    requires
        n >= 1,
    ensures
        digits10(n) <= n,
    decreases n,
{
    if n >= 10 {
        assert(1 <= n / 10 < n) by (nonlinear_arith)
            requires
                n >= 10,
        ;
        lemma_digits10_le(n / 10);
    }
}

/// The editor pane: the layout arithmetic of the buffer view. Drawing is left
/// to the display layer, which reads these results.
pub struct EditorPane;

impl EditorPane {
    /// The text rows available inside the pane's border.
    pub fn content_height(area_height: u16) -> (r: usize)
        ensures
            r == if area_height >= 2 {
                area_height - 2
            } else {
                0
            },
    {
        area_height.saturating_sub(2) as usize
    }

    /// The width of the line-number gutter: the digit count of the total
    /// line count, but at least three columns.
    pub fn line_number_width(total_lines: usize) -> (r: usize)
        ensures
            r == if digits10(total_lines as nat) >= 3 {
                digits10(total_lines as nat)
            } else {
                3
            },
    {
        proof {
            if total_lines >= 1 {
                lemma_digits10_le(total_lines as nat);
            }
        }
        let mut d: usize = 1;
        let mut m: usize = total_lines / 10;
        while m > 0
            invariant
                1 <= d,
                d <= digits10(total_lines as nat),
                digits10(total_lines as nat) <= if total_lines >= 1 {
                    total_lines as nat
                } else {
                    1
                },
                m > 0 ==> digits10(total_lines as nat) == d + digits10(m as nat),
                m == 0 ==> digits10(total_lines as nat) == d,
            decreases m,
        {
            proof {
                if m >= 1 {
                    assert(digits10(m as nat) >= 1);
                    if m >= 10 {
                        assert(digits10((m / 10) as nat) >= 1);
                    }
                }
            }
            d = d + 1;
            m = m / 10;
        }
        if d < 3 {
            3
        } else {
            d
        }
    }

    /// The slice of buffer lines that is visible: `height` lines starting at
    /// the scroll offset, clipped to the buffer.
    pub fn visible_range(scroll_offset: usize, total: usize, height: usize) -> (r: (usize, usize))
        ensures
            r.0 == if scroll_offset <= total {
                scroll_offset as int
            } else {
                total as int
            },
            r.1 == if scroll_offset + height <= total {
                scroll_offset + height
            } else {
                total as int
            },
            r.0 <= r.1 <= total,
    {
        let start = if scroll_offset <= total {
            scroll_offset
        } else {
            total
        };
        let end = if height <= total - start {
            start + height
        } else {
            total
        };
        (start, end)
    }

    /// The cursor split of a line: the characters before the cursor column,
    /// the character glyph under the cursor (a space at or past the end of
    /// the line), and the characters after it. The split counts characters,
    /// not bytes, so it is exact for multi-byte text.
    pub fn split_line_at_cursor(line: &str, col: usize) -> (r: (String, char, String))
        ensures
            r.0@ == line@.take(
                if col <= line@.len() {
                    col as int
                } else {
                    line@.len() as int
                },
            ),
            r.1 == if col < line@.len() {
                line@[col as int]
            } else {
                ' '
            },
            r.2@ == if col + 1 < line@.len() {
                line@.skip(col + 1)
            } else {
                Seq::<char>::empty()
            },
    {
        let n = line.unicode_len();
        let c = if col < n {
            col
        } else {
            n
        };
        let before = line.substring_char(0, c).to_owned();
        let glyph = if col < n {
            line.get_char(col)
        } else {
            ' '
        };
        let after = if col < n && col + 1 < n {
            line.substring_char(col + 1, n).to_owned()
        } else {
            String::new()
        };
        proof {
            if col + 1 < line@.len() {
                assert(after@ == line@.skip(col + 1));
            }
        }
        (before, glyph, after)
    }
}

} // verus!
