use vstd::prelude::*;

use crate::animation::ActivePane;

verus! {

/// A transcript line that is rendered as a typed command: it starts with the
/// literal `"~ "` prefix.
pub open spec fn is_command(s: Seq<char>) -> bool {
    s.len() >= 2 && s[0] == '~' && s[1] == ' '
}

/// The terminal pane: the layout arithmetic of the transcript view. Drawing
/// is left to the display layer, which reads these results.
pub struct TerminalPane;

impl TerminalPane {
    /// The text rows available inside the pane's vertical padding.
    pub fn content_height(area_height: u16) -> (r: usize)
        ensures
            r == if area_height >= 2 {
                area_height - 2
            } else {
                0
            },
    {
        area_height.saturating_sub(2) as usize
    }

    /// The first transcript line shown: the last `height` lines fit, earlier
    /// ones scroll out.
    pub fn visible_start(total: usize, height: usize) -> (r: usize)
        ensures
            r == if total >= height {
                total - height
            } else {
                0
            },
    {
        total.saturating_sub(height)
    }

    /// Whether the given line is rendered as a typed command.
    pub fn is_command_line(line: &str) -> (r: bool)
        ensures
            r == is_command(line@),
    {
        let n = line.unicode_len();
        if n < 2 {
            return false;
        }
        line.get_char(0) == '~' && line.get_char(1) == ' '
    }

    /// Whether the cursor glyph is appended after the line at `idx` (counted
    /// from `start`): only on the last transcript line, only while the blink
    /// phase shows the cursor, and only when the terminal pane is active.
    pub fn shows_cursor(
        start: usize,
        idx: usize,
        total: usize,
        cursor_visible: bool,
        active_pane: ActivePane,
    ) -> (r: bool)
        ensures
            r == (start + idx == total - 1 && total > 0 && cursor_visible && active_pane
                == ActivePane::Terminal),
    {
        total > 0 && start <= total - 1 && total - 1 - start == idx && cursor_visible && (
        match active_pane {
            ActivePane::Terminal => true,
            ActivePane::Editor => false,
        })
    }
}

} // verus!
