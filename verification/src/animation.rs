use vstd::prelude::*;

use crate::buffer::EditorBuffer;
use crate::buffer::empty_lines;
use crate::buffer::line_with_delete;
use crate::buffer::line_with_insert;
use crate::buffer::pad_to;
use crate::buffer::split_lines;
use crate::diff::CommitMetadata;
use crate::diff::DiffHunk;
use crate::diff::DiffHunkView;
use crate::diff::FileChange;
use crate::diff::FileChangeView;
use crate::diff::LineChangeType;
use crate::diff::LineChangeView;

verus! {

/// One atomic playback action.
#[derive(Debug, Clone)]
pub enum AnimationStep {
    InsertChar { line: usize, col: usize, ch: char },
    DeleteChar { line: usize, col: usize },
    InsertLine { line: usize, content: String },
    DeleteLine { line: usize },
    MoveCursor { line: usize, col: usize },
    Pause { duration_ms: u64 },
    SwitchFile { file_index: usize, content: String },
}

/// The mathematical form of a step, with text as character sequences.
#[verifier::ext_equal]
pub ghost enum StepView {
    InsertChar { line: int, col: int, ch: char },
    DeleteChar { line: int, col: int },
    InsertLine { line: int, content: Seq<char> },
    DeleteLine { line: int },
    MoveCursor { line: int, col: int },
    Pause { duration_ms: int },
    SwitchFile { file_index: int, content: Seq<char> },
}

impl View for AnimationStep {
    type V = StepView;

    open spec fn view(&self) -> StepView {
        match self {
            AnimationStep::InsertChar { line, col, ch } => StepView::InsertChar {
                line: *line as int,
                col: *col as int,
                ch: *ch,
            },
            AnimationStep::DeleteChar { line, col } => StepView::DeleteChar {
                line: *line as int,
                col: *col as int,
            },
            AnimationStep::InsertLine { line, content } => StepView::InsertLine {
                line: *line as int,
                content: content@,
            },
            AnimationStep::DeleteLine { line } => StepView::DeleteLine { line: *line as int },
            AnimationStep::MoveCursor { line, col } => StepView::MoveCursor {
                line: *line as int,
                col: *col as int,
            },
            AnimationStep::Pause { duration_ms } => StepView::Pause {
                duration_ms: *duration_ms as int,
            },
            AnimationStep::SwitchFile { file_index, content } => StepView::SwitchFile {
                file_index: *file_index as int,
                content: content@,
            },
        }
    }
}

impl DeepView for AnimationStep {
    type V = StepView;

    open spec fn deep_view(&self) -> StepView {
        self.view()
    }
}

impl AnimationStep {
    /// A copy of the step whose mathematical form is the same.
    pub fn duplicate(&self) -> (r: AnimationStep)
        ensures
            r@ == self@,
    {
        match self {
            AnimationStep::InsertChar { line, col, ch } => AnimationStep::InsertChar {
                line: *line,
                col: *col,
                ch: *ch,
            },
            AnimationStep::DeleteChar { line, col } => AnimationStep::DeleteChar {
                line: *line,
                col: *col,
            },
            AnimationStep::InsertLine { line, content } => AnimationStep::InsertLine {
                line: *line,
                content: content.clone(),
            },
            AnimationStep::DeleteLine { line } => AnimationStep::DeleteLine { line: *line },
            AnimationStep::MoveCursor { line, col } => AnimationStep::MoveCursor {
                line: *line,
                col: *col,
            },
            AnimationStep::Pause { duration_ms } => AnimationStep::Pause {
                duration_ms: *duration_ms,
            },
            AnimationStep::SwitchFile { file_index, content } => AnimationStep::SwitchFile {
                file_index: *file_index,
                content: content.clone(),
            },
        }
    }
}

/// Where playback stands.
#[derive(Debug, Clone, Copy, PartialEq, Eq, Structural)]
pub enum AnimationState {
    Idle,
    Playing,
    Paused,
    Finished,
}

/// Which pane currently shows a blinking cursor.
#[derive(Debug, Clone, Copy, PartialEq, Eq, Structural)]
pub enum ActivePane {
    Editor,
    Terminal,
}

/// The starting buffer content of a file change: its pre-change content, or
/// empty text for a newly created file.
pub open spec fn start_content(fc: FileChangeView) -> Seq<char> {
    match fc.old_content {
        Option::Some(c) => c,
        Option::None => Seq::<char>::empty(),
    }
}

/// One insert-character step.
pub open spec fn insert_char_step(line: int, col: int, ch: char) -> StepView {
    StepView::InsertChar { line, col, ch }
}

/// One insert-character step per character of `text`, all on `line`, at
/// increasing columns starting from 0.
pub open spec fn char_steps(line: int, text: Seq<char>) -> Seq<StepView>
    decreases text.len(),
{
    if text.len() == 0 {
        Seq::<StepView>::empty()
    } else {
        char_steps(line, text.drop_last()) + seq![
            insert_char_step(line, text.len() - 1, text.last()),
        ]
    }
}

/// The move/pause pairs of a downward cursor walk: one per line from
/// `from + 1` up to `to`.
pub open spec fn move_steps_down(from: int, to: int) -> Seq<StepView>
    decreases to - from,
{
    if to <= from {
        Seq::<StepView>::empty()
    } else {
        move_steps_down(from, to - 1) + seq![
            StepView::MoveCursor { line: to, col: 0 },
            StepView::Pause { duration_ms: 50 },
        ]
    }
}

/// The move/pause pairs of an upward cursor walk: one per line from
/// `from - 1` down to `to`.
pub open spec fn move_steps_up(from: int, to: int) -> Seq<StepView>
    decreases from - to,
{
    if from <= to {
        Seq::<StepView>::empty()
    } else {
        move_steps_up(from, to + 1) + seq![
            StepView::MoveCursor { line: to, col: 0 },
            StepView::Pause { duration_ms: 50 },
        ]
    }
}

/// All steps of a cursor movement: nothing when the lines are equal, else the
/// line-by-line walk followed by one settling pause.
pub open spec fn movement_steps(from: int, to: int) -> Seq<StepView> {
    if from == to {
        Seq::<StepView>::empty()
    } else if from < to {
        move_steps_down(from, to) + seq![StepView::Pause { duration_ms: 300 }]
    } else {
        move_steps_up(from, to) + seq![StepView::Pause { duration_ms: 300 }]
    }
}

/// The three line cursors threaded through a hunk's execution.
pub ghost struct HunkCursor {
    pub old_line: int,
    pub new_line: int,
    pub cursor: int,
}

/// The steps that one classified line of a hunk contributes.
pub open spec fn hunk_line_steps(st: HunkCursor, lc: LineChangeView) -> Seq<StepView> {
    match lc.change_type {
        LineChangeType::Deletion => seq![
            StepView::DeleteLine { line: st.old_line },
            StepView::Pause { duration_ms: 300 },
        ],
        LineChangeType::Addition => seq![
            StepView::InsertLine { line: st.new_line, content: Seq::<char>::empty() },
        ] + char_steps(st.new_line, lc.content) + seq![StepView::Pause { duration_ms: 200 }],
        LineChangeType::Context => if st.new_line != st.cursor {
            seq![
                StepView::MoveCursor { line: st.new_line, col: 0 },
                StepView::Pause { duration_ms: 50 },
            ]
        } else {
            Seq::<StepView>::empty()
        },
    }
}

/// How one classified line advances the hunk's line cursors.
pub open spec fn hunk_line_next(st: HunkCursor, lc: LineChangeView) -> HunkCursor {
    match lc.change_type {
        LineChangeType::Deletion => HunkCursor {
            old_line: st.old_line,
            new_line: st.new_line,
            cursor: st.old_line,
        },
        LineChangeType::Addition => HunkCursor {
            old_line: st.old_line + 1,
            new_line: st.new_line + 1,
            cursor: st.new_line,
        },
        LineChangeType::Context => HunkCursor {
            old_line: st.old_line + 1,
            new_line: st.new_line + 1,
            cursor: st.new_line + 1,
        },
    }
}

/// The line cursors after the first `n` classified lines of a hunk.
pub open spec fn hunk_state_at(lines: Seq<LineChangeView>, init: HunkCursor, n: int) -> HunkCursor
    decreases n,
{
    if n <= 0 {
        init
    } else {
        hunk_line_next(hunk_state_at(lines, init, n - 1), lines[n - 1])
    }
}

/// The steps of the first `n` classified lines of a hunk.
pub open spec fn hunk_steps_at(lines: Seq<LineChangeView>, init: HunkCursor, n: int) -> Seq<
    StepView,
>
    decreases n,
{
    if n <= 0 {
        Seq::<StepView>::empty()
    } else {
        hunk_steps_at(lines, init, n - 1) + hunk_line_steps(
            hunk_state_at(lines, init, n - 1),
            lines[n - 1],
        )
    }
}

/// The line cursors a hunk starts with: both file cursors at its start line,
/// the playback cursor where the movement phase left it.
pub open spec fn hunk_init(h: DiffHunkView, start_cursor: int) -> HunkCursor {
    HunkCursor { old_line: h.old_start, new_line: h.old_start, cursor: start_cursor }
}

/// All edit steps of one hunk.
pub open spec fn hunk_steps(h: DiffHunkView, start_cursor: int) -> Seq<StepView> {
    hunk_steps_at(h.lines, hunk_init(h, start_cursor), h.lines.len() as int)
}

/// The playback cursor line a hunk ends on.
pub open spec fn hunk_final_cursor(h: DiffHunkView, start_cursor: int) -> int {
    hunk_state_at(h.lines, hunk_init(h, start_cursor), h.lines.len() as int).cursor
}

/// The playback cursor line after the first `n` hunks of a file.
pub open spec fn file_cursor_at(hunks: Seq<DiffHunkView>, n: int) -> int
    decreases n,
{
    if n <= 0 {
        0
    } else {
        hunk_final_cursor(hunks[n - 1], hunks[n - 1].old_start)
    }
}

/// The steps of the first `n` hunks of a file: for each hunk the cursor walk
/// to its start line, its edit steps, and a closing pause.
pub open spec fn file_steps_at(hunks: Seq<DiffHunkView>, n: int) -> Seq<StepView>
    decreases n,
{
    if n <= 0 {
        Seq::<StepView>::empty()
    } else {
        file_steps_at(hunks, n - 1) + movement_steps(
            file_cursor_at(hunks, n - 1),
            hunks[n - 1].old_start,
        ) + hunk_steps(hunks[n - 1], hunks[n - 1].old_start) + seq![
            StepView::Pause { duration_ms: 1500 },
        ]
    }
}

/// All steps of one file change.
pub open spec fn file_steps(hunks: Seq<DiffHunkView>) -> Seq<StepView> {
    file_steps_at(hunks, hunks.len() as int)
}

/// The steps of the first `n` file changes: for each file a switch-to-file
/// step with its starting content, an opening pause, its hunks' steps, and a
/// between-files pause after every file but the last.
pub open spec fn commit_steps_at(changes: Seq<FileChangeView>, n: int) -> Seq<StepView>
    decreases n,
{
    if n <= 0 {
        Seq::<StepView>::empty()
    } else {
        commit_steps_at(changes, n - 1) + seq![
            StepView::SwitchFile { file_index: n - 1, content: start_content(changes[n - 1]) },
            StepView::Pause { duration_ms: 1000 },
        ] + file_steps(changes[n - 1].hunks) + if n < changes.len() {
            seq![StepView::Pause { duration_ms: 2000 }]
        } else {
            Seq::<StepView>::empty()
        }
    }
}

/// The full step sequence of a commit: every file's steps and one final pause.
pub open spec fn commit_steps(changes: Seq<FileChangeView>) -> Seq<StepView> {
    commit_steps_at(changes, changes.len() as int) + seq![StepView::Pause { duration_ms: 3000 }]
}

/// The line cursors of a hunk never exceed its start line plus its line
/// count, so they fit in `usize` whenever that sum does.
pub open spec fn hunk_fits(h: DiffHunkView) -> bool {
    0 <= h.old_start && h.old_start + h.lines.len() <= usize::MAX
}

/// Every hunk of every change fits in `usize` arithmetic.
pub open spec fn commit_fits(changes: Seq<FileChangeView>) -> bool {
    forall|i: int, j: int|
        0 <= i < changes.len() && 0 <= j < changes[i].hunks.len() ==> #[trigger] hunk_fits(
            changes[i].hunks[j],
        )
}

} // verus!

verus! {

/// The scroll offset that keeps the cursor centered: pinned to the top near
/// the start, showing the last full page near the end, centered in between.
/// A zero viewport keeps the previous offset.
pub open spec fn scroll_target(cursor: int, total: int, viewport: int, prev: int) -> int {
    if viewport == 0 {
        prev
    } else {
        let half = viewport / 2;
        if cursor < half {
            0
        } else if cursor + half >= total {
            if total >= viewport {
                total - viewport
            } else {
                0
            }
        } else {
            cursor - half
        }
    }
}

/// The column the cursor lands on after typing at `col`, clamped to `usize`.
pub open spec fn col_after_insert(col: int) -> int {
    if col + 1 <= usize::MAX {
        col + 1
    } else {
        usize::MAX as int
    }
}

/// The animation engine: the simulated buffer and shell transcript, the
/// precomputed step sequence, the playback cursor into it, and the timers
/// that drive cadence, pauses and cursor blinking. All times are milliseconds
/// on one monotonic clock supplied by the caller of `tick`.
#[derive(Debug, Clone)]
pub struct AnimationEngine {
    pub buffer: EditorBuffer,
    pub state: AnimationState,
    pub steps: Vec<AnimationStep>,
    pub current_step: usize,
    pub last_update_ms: u64,
    pub speed_ms: u64,
    pub pause_until_ms: Option<u64>,
    pub cursor_visible: bool,
    pub cursor_blink_ms: u64,
    pub viewport_height: usize,
    pub current_file_index: usize,
    pub terminal_lines: Vec<String>,
    pub active_pane: ActivePane,
}

/// What executing one step does to the engine: the buffer mutation of the
/// step's variant, the cursor it leaves, the scroll recomputation that
/// follows every step, and nothing else.
pub open spec fn step_effect(
    pre: AnimationEngine,
    post: AnimationEngine,
    s: StepView,
    now: int,
) -> bool {
    &&& post.state == pre.state
    &&& post.steps == pre.steps
    &&& post.current_step == pre.current_step
    &&& post.last_update_ms == pre.last_update_ms
    &&& post.speed_ms == pre.speed_ms
    &&& post.cursor_visible == pre.cursor_visible
    &&& post.cursor_blink_ms == pre.cursor_blink_ms
    &&& post.viewport_height == pre.viewport_height
    &&& post.terminal_lines == pre.terminal_lines
    &&& post.active_pane == pre.active_pane
    &&& post.buffer.scroll_offset == scroll_target(
        post.buffer.cursor_line as int,
        post.buffer.lines_view().len() as int,
        pre.viewport_height as int,
        if s is SwitchFile {
            0
        } else {
            pre.buffer.scroll_offset as int
        },
    )
    &&& match s {
        StepView::InsertChar { line, col, ch } => {
            &&& post.buffer.lines_view() == {
                let padded = pad_to(pre.buffer.lines_view(), line);
                padded.update(line, line_with_insert(padded[line], col, ch))
            }
            &&& post.buffer.cursor_line == line
            &&& post.buffer.cursor_col == col_after_insert(col)
            &&& post.current_file_index == pre.current_file_index
            &&& post.pause_until_ms == pre.pause_until_ms
        },
        StepView::DeleteChar { line, col } => {
            &&& post.buffer.lines_view() == {
                let lines = pre.buffer.lines_view();
                if line < lines.len() && col < lines[line].len() {
                    lines.update(line, line_with_delete(lines[line], col))
                } else {
                    lines
                }
            }
            &&& post.buffer.cursor_line == line
            &&& post.buffer.cursor_col == col
            &&& post.current_file_index == pre.current_file_index
            &&& post.pause_until_ms == pre.pause_until_ms
        },
        StepView::InsertLine { line, content } => {
            &&& post.buffer.lines_view() == {
                let lines = pre.buffer.lines_view();
                let padded = if line <= lines.len() {
                    lines
                } else {
                    lines + empty_lines((line - lines.len()) as nat)
                };
                padded.insert(line, content)
            }
            &&& post.buffer.cursor_line == line
            &&& post.buffer.cursor_col == 0
            &&& post.current_file_index == pre.current_file_index
            &&& post.pause_until_ms == pre.pause_until_ms
        },
        StepView::DeleteLine { line } => {
            &&& post.buffer.lines_view() == {
                let lines = pre.buffer.lines_view();
                let removed = if line < lines.len() {
                    lines.remove(line)
                } else {
                    lines
                };
                if removed.len() == 0 {
                    seq![Seq::<char>::empty()]
                } else {
                    removed
                }
            }
            &&& post.buffer.cursor_line == line
            &&& post.buffer.cursor_col == 0
            &&& post.current_file_index == pre.current_file_index
            &&& post.pause_until_ms == pre.pause_until_ms
        },
        StepView::MoveCursor { line, col } => {
            &&& post.buffer.lines_view() == pre.buffer.lines_view()
            &&& post.buffer.cursor_line == line
            &&& post.buffer.cursor_col == col
            &&& post.current_file_index == pre.current_file_index
            &&& post.pause_until_ms == pre.pause_until_ms
        },
        StepView::Pause { duration_ms } => {
            &&& post.buffer.lines_view() == pre.buffer.lines_view()
            &&& post.buffer.cursor_line == pre.buffer.cursor_line
            &&& post.buffer.cursor_col == pre.buffer.cursor_col
            &&& post.current_file_index == pre.current_file_index
            &&& post.pause_until_ms == Option::Some(
                (now as u64).saturating_add(duration_ms as u64),
            )
        },
        StepView::SwitchFile { file_index, content } => {
            &&& post.buffer.lines_view() == split_lines(content)
            &&& post.buffer.cursor_line == 0
            &&& post.buffer.cursor_col == 0
            &&& post.current_file_index == file_index
            &&& post.pause_until_ms == pre.pause_until_ms
        },
    }
}

impl AnimationEngine {
    /// The mathematical form of the step sequence.
    pub open spec fn steps_view(&self) -> Seq<StepView> {
        self.steps.deep_view()
    }

    /// A fresh engine: idle, empty step sequence, one empty buffer line, a
    /// visible cursor in the editor pane, and a default viewport of 20 rows.
    pub fn new(speed_ms: u64) -> (r: Self)
        ensures
            r.state == AnimationState::Idle,
            r.steps_view() == Seq::<StepView>::empty(),
            r.current_step == 0,
            r.speed_ms == speed_ms,
            r.last_update_ms == 0,
            (r.pause_until_ms is None),
            r.cursor_visible == true,
            r.cursor_blink_ms == 0,
            r.viewport_height == 20,
            r.current_file_index == 0,
            r.buffer.lines_view() == seq![Seq::<char>::empty()],
            r.buffer.cursor_line == 0,
            r.buffer.cursor_col == 0,
            r.buffer.scroll_offset == 0,
            r.terminal_lines.deep_view() == Seq::<Seq<char>>::empty(),
            r.active_pane == ActivePane::Editor,
    {
        let r = AnimationEngine {
            buffer: EditorBuffer::new(),
            state: AnimationState::Idle,
            steps: Vec::new(),
            current_step: 0,
            last_update_ms: 0,
            speed_ms,
            pause_until_ms: Option::None,
            cursor_visible: true,
            cursor_blink_ms: 0,
            viewport_height: 20,
            current_file_index: 0,
            terminal_lines: Vec::new(),
            active_pane: ActivePane::Editor,
        };
        proof {
            assert(r.steps_view() =~= Seq::<StepView>::empty());
            assert(r.terminal_lines.deep_view() =~= Seq::<Seq<char>>::empty());
        }
        r
    }

    /// Lets the rendering layer report the actual editor pane height.
    pub fn set_viewport_height(&mut self, height: usize)
        ensures
            *final(self) == (AnimationEngine { viewport_height: height, ..*old(self) }),
    {
        self.viewport_height = height;
    }

    /// External pause control: suspends or resumes step advancement. Only
    /// playback that is underway can be suspended, and only a suspension can
    /// be lifted; every other state is kept.
    pub fn set_paused(&mut self, paused: bool)
        ensures
            *final(self) == (AnimationEngine {
                state: if paused && old(self).state == AnimationState::Playing {
                    AnimationState::Paused
                } else if !paused && old(self).state == AnimationState::Paused {
                    AnimationState::Playing
                } else {
                    old(self).state
                },
                ..*old(self)
            }),
    {
        if paused {
            if self.state == AnimationState::Playing {
                self.state = AnimationState::Paused;
            }
        } else {
            if self.state == AnimationState::Paused {
                self.state = AnimationState::Playing;
            }
        }
    }

    /// True exactly when every step has been consumed.
    pub fn is_finished(&self) -> (r: bool)
        ensures
            r == (self.state == AnimationState::Finished),
    {
        self.state == AnimationState::Finished
    }

    /// Recomputes the scroll offset from the cursor line, the line count and
    /// the viewport height.
    pub fn update_scroll(&mut self)
        ensures
            *final(self) == (AnimationEngine {
                buffer: EditorBuffer {
                    scroll_offset: scroll_target(
                        old(self).buffer.cursor_line as int,
                        old(self).buffer.lines_view().len() as int,
                        old(self).viewport_height as int,
                        old(self).buffer.scroll_offset as int,
                    ) as usize,
                    ..old(self).buffer
                },
                ..*old(self)
            }),
    {
        if self.viewport_height == 0 {
            return ;
        }
        let cursor = self.buffer.cursor_line;
        let total = self.buffer.lines.len();
        let half = self.viewport_height / 2;
        let target: usize = if cursor < half {
            0
        } else if cursor >= total || total - cursor <= half {
            total.saturating_sub(self.viewport_height)
        } else {
            cursor - half
        };
        self.buffer.scroll_offset = target;
    }

    /// Executes one step: the buffer mutation of its variant, the cursor it
    /// dictates, and the scroll recomputation that follows every step.
    pub fn execute_step(&mut self, step: AnimationStep, now_ms: u64)
        ensures
            step_effect(*old(self), *final(self), step@, now_ms as int),
    {
        match step {
            AnimationStep::InsertChar { line, col, ch } => {
                self.buffer.insert_char(line, col, ch);
                self.buffer.cursor_line = line;
                self.buffer.cursor_col = col.saturating_add(1);
            },
            AnimationStep::DeleteChar { line, col } => {
                self.buffer.delete_char(line, col);
                self.buffer.cursor_line = line;
                self.buffer.cursor_col = col;
            },
            AnimationStep::InsertLine { line, content } => {
                self.buffer.insert_line(line, content);
                self.buffer.cursor_line = line;
                self.buffer.cursor_col = 0;
            },
            AnimationStep::DeleteLine { line } => {
                self.buffer.delete_line(line);
                self.buffer.cursor_line = line;
                self.buffer.cursor_col = 0;
            },
            AnimationStep::MoveCursor { line, col } => {
                self.buffer.cursor_line = line;
                self.buffer.cursor_col = col;
            },
            AnimationStep::Pause { duration_ms } => {
                self.pause_until_ms = Option::Some(now_ms.saturating_add(duration_ms));
            },
            AnimationStep::SwitchFile { file_index, content } => {
                self.current_file_index = file_index;
                self.buffer = EditorBuffer::from_content(content.as_str());
            },
        }
        self.update_scroll();
    }
}

} // verus!

verus! {

/// Two engines that agree on everything but the step sequence.
pub open spec fn same_except_steps(a: AnimationEngine, b: AnimationEngine) -> bool {
    b == (AnimationEngine { steps: b.steps, ..a })
}

impl AnimationEngine {
    /// Appends the steps of a line-by-line cursor walk from `from_line` to
    /// `to_line` and returns the line the cursor ends on.
    pub fn generate_cursor_movement(&mut self, from_line: usize, to_line: usize) -> (r: usize)
        ensures
            final(self).steps_view() == old(self).steps_view() + movement_steps(
                from_line as int,
                to_line as int,
            ),
            r == to_line,
            same_except_steps(*old(self), *final(self)),
    {
        let ghost base = self.steps_view();
        if from_line == to_line {
            proof {
                assert(self.steps_view() =~= base + movement_steps(
                    from_line as int,
                    to_line as int,
                ));
            }
            return to_line;
        }
        if from_line < to_line {
            let mut i: usize = from_line;
            while i < to_line
                invariant
                    from_line <= i <= to_line,
                    self.steps_view() =~= base + move_steps_down(from_line as int, i as int),
                    same_except_steps(*old(self), *self),
                decreases to_line - i,
            {
                let ghost pre = self.steps_view();
                self.steps.push(AnimationStep::MoveCursor { line: i + 1, col: 0 });
                self.steps.push(AnimationStep::Pause { duration_ms: 50 });
                i = i + 1;
                proof {
                    assert(self.steps_view() =~= pre + seq![
                        StepView::MoveCursor { line: i as int, col: 0 },
                        StepView::Pause { duration_ms: 50 },
                    ]);
                    assert(self.steps_view() =~= base + move_steps_down(
                        from_line as int,
                        i as int,
                    ));
                }
            }
        } else {
            let mut i: usize = from_line;
            while i > to_line
                invariant
                    to_line <= i <= from_line,
                    self.steps_view() =~= base + move_steps_up(from_line as int, i as int),
                    same_except_steps(*old(self), *self),
                decreases i - to_line,
            {
                let ghost pre = self.steps_view();
                i = i - 1;
                self.steps.push(AnimationStep::MoveCursor { line: i, col: 0 });
                self.steps.push(AnimationStep::Pause { duration_ms: 50 });
                proof {
                    assert(self.steps_view() =~= pre + seq![
                        StepView::MoveCursor { line: i as int, col: 0 },
                        StepView::Pause { duration_ms: 50 },
                    ]);
                    assert(self.steps_view() =~= base + move_steps_up(from_line as int, i as int));
                }
            }
        }
        let ghost pre = self.steps_view();
        self.steps.push(AnimationStep::Pause { duration_ms: 300 });
        proof {
            assert(self.steps_view() =~= pre.push(StepView::Pause { duration_ms: 300 }));
            assert(self.steps_view() =~= base + movement_steps(from_line as int, to_line as int));
        }
        to_line
    }

    /// Appends the edit steps of one hunk, starting with the playback cursor
    /// on `start_line`, and returns the line the cursor ends on.
    pub fn generate_steps_for_hunk(&mut self, hunk: &DiffHunk, start_line: usize) -> (r: usize)
        requires
            hunk_fits(hunk@),
        ensures
            final(self).steps_view() == old(self).steps_view() + hunk_steps(
                hunk@,
                start_line as int,
            ),
            r as int == hunk_final_cursor(hunk@, start_line as int),
            same_except_steps(*old(self), *final(self)),
    {
        let ghost base = self.steps_view();
        let ghost lines_v = hunk@.lines;
        let ghost init = hunk_init(hunk@, start_line as int);
        let mut current_old_line: usize = hunk.old_start;
        let mut current_new_line: usize = hunk.old_start;
        let mut cursor_line: usize = start_line;
        let mut i: usize = 0;
        while i < hunk.lines.len()
            invariant
                i <= hunk.lines.len(),
                lines_v == hunk@.lines,
                lines_v.len() == hunk.lines.len(),
                init == hunk_init(hunk@, start_line as int),
                hunk_fits(hunk@),
                current_old_line as int == hunk_state_at(lines_v, init, i as int).old_line,
                current_new_line as int == hunk_state_at(lines_v, init, i as int).new_line,
                cursor_line as int == hunk_state_at(lines_v, init, i as int).cursor,
                current_old_line <= hunk.old_start + i,
                current_new_line <= hunk.old_start + i,
                self.steps_view() =~= base + hunk_steps_at(lines_v, init, i as int),
                same_except_steps(*old(self), *self),
            decreases hunk.lines.len() - i,
        {
            let ghost st = hunk_state_at(lines_v, init, i as int);
            let ghost pre = self.steps_view();
            let lc = &hunk.lines[i];
            match lc.change_type {
                LineChangeType::Deletion => {
                    self.steps.push(AnimationStep::DeleteLine { line: current_old_line });
                    self.steps.push(AnimationStep::Pause { duration_ms: 300 });
                    cursor_line = current_old_line;
                    proof {
                        assert(self.steps_view() =~= pre + hunk_line_steps(st, lines_v[i as int]));
                    }
                },
                LineChangeType::Addition => {
                    self.steps.push(
                        AnimationStep::InsertLine { line: current_new_line, content: String::new() },
                    );
                    proof {
                        assert(self.steps_view() =~= pre + seq![
                            StepView::InsertLine {
                                line: current_new_line as int,
                                content: Seq::<char>::empty(),
                            },
                        ]);
                    }
                    let ghost mid = self.steps_view();
                    let text = lc.content.as_str();
                    let n = text.unicode_len();
                    let mut col: usize = 0;
                    while col < n
                        invariant
                            col <= n,
                            n == text@.len(),
                            text@ == lines_v[i as int].content,
                            i < lines_v.len(),
                            current_new_line as int == st.new_line,
                            st == hunk_state_at(lines_v, init, i as int),
                            self.steps_view() =~= mid + char_steps(
                                st.new_line,
                                text@.take(col as int),
                            ),
                            same_except_steps(*old(self), *self),
                        decreases n - col,
                    {
                        let ghost prec = self.steps_view();
                        let ch = text.get_char(col);
                        self.steps.push(
                            AnimationStep::InsertChar { line: current_new_line, col, ch },
                        );
                        proof {
                            assert(self.steps_view() =~= prec.push(
                                StepView::InsertChar {
                                    line: st.new_line,
                                    col: col as int,
                                    ch: text@[col as int],
                                },
                            ));
                            assert(text@.take(col + 1).drop_last() =~= text@.take(col as int));
                            assert(text@.take(col + 1).last() == text@[col as int]);
                            assert(char_steps(st.new_line, text@.take(col + 1)) =~= char_steps(
                                st.new_line,
                                text@.take(col as int),
                            ).push(
                                StepView::InsertChar {
                                    line: st.new_line,
                                    col: col as int,
                                    ch: text@[col as int],
                                },
                            ));
                        }
                        col = col + 1;
                    }
                    cursor_line = current_new_line;
                    current_new_line = current_new_line + 1;
                    current_old_line = current_old_line + 1;
                    self.steps.push(AnimationStep::Pause { duration_ms: 200 });
                    proof {
                        assert(text@.take(n as int) =~= text@);
                        assert(text@ == lines_v[i as int].content);
                        assert(self.steps_view() =~= mid + char_steps(st.new_line, text@) + seq![
                            StepView::Pause { duration_ms: 200 },
                        ]);
                        assert(self.steps_view() =~= pre + hunk_line_steps(st, lines_v[i as int]));
                    }
                },
                LineChangeType::Context => {
                    if current_new_line != cursor_line {
                        self.steps.push(
                            AnimationStep::MoveCursor { line: current_new_line, col: 0 },
                        );
                        self.steps.push(AnimationStep::Pause { duration_ms: 50 });
                    }
                    current_old_line = current_old_line + 1;
                    current_new_line = current_new_line + 1;
                    cursor_line = current_new_line;
                    proof {
                        assert(self.steps_view() =~= pre + hunk_line_steps(st, lines_v[i as int]));
                    }
                },
            }
            i = i + 1;
        }
        cursor_line
    }

    /// Appends all steps of one file change: for each hunk the cursor walk to
    /// its start line, its edit steps, and a closing pause.
    pub fn generate_steps_for_file(&mut self, change: &FileChange)
        requires
            forall|j: int|
                0 <= j < change@.hunks.len() ==> #[trigger] hunk_fits(change@.hunks[j]),
        ensures
            final(self).steps_view() == old(self).steps_view() + file_steps(change@.hunks),
            same_except_steps(*old(self), *final(self)),
    {
        let ghost base = self.steps_view();
        let ghost hunks_v = change@.hunks;
        let mut current_cursor_line: usize = 0;
        let mut i: usize = 0;
        while i < change.hunks.len()
            invariant
                i <= change.hunks.len(),
                hunks_v == change@.hunks,
                hunks_v.len() == change.hunks.len(),
                forall|j: int| 0 <= j < hunks_v.len() ==> #[trigger] hunk_fits(hunks_v[j]),
                current_cursor_line as int == file_cursor_at(hunks_v, i as int),
                self.steps_view() =~= base + file_steps_at(hunks_v, i as int),
                same_except_steps(*old(self), *self),
            decreases change.hunks.len() - i,
        {
            let hunk = &change.hunks[i];
            proof {
                assert(hunk@ == hunks_v[i as int]);
                assert(hunk_fits(hunks_v[i as int]));
            }
            let target_line = hunk.old_start;
            current_cursor_line = self.generate_cursor_movement(current_cursor_line, target_line);
            current_cursor_line = self.generate_steps_for_hunk(hunk, current_cursor_line);
            let ghost pre = self.steps_view();
            self.steps.push(AnimationStep::Pause { duration_ms: 1500 });
            proof {
                assert(self.steps_view() =~= pre.push(StepView::Pause { duration_ms: 1500 }));
                assert(self.steps_view() =~= base + file_steps_at(hunks_v, i + 1));
            }
            i = i + 1;
        }
    }

    /// Resets playback and builds the full step sequence of the commit: per
    /// file a switch-to-file step and an opening pause, the file's hunk
    /// steps, a pause between files, and one final pause after all of them.
    /// The buffer starts on the first file's starting content, and playback
    /// starts immediately.
    pub fn load_commit(&mut self, metadata: &CommitMetadata)
        requires
            commit_fits(metadata@),
        ensures
            final(self).steps_view() == commit_steps(metadata@),
            final(self).state == AnimationState::Playing,
            final(self).current_step == 0,
            final(self).current_file_index == 0,
            (final(self).pause_until_ms is None),
            final(self).buffer.lines_view() == split_lines(
                if metadata@.len() > 0 {
                    start_content(metadata@[0])
                } else {
                    Seq::<char>::empty()
                },
            ),
            final(self).buffer.cursor_line == 0,
            final(self).buffer.cursor_col == 0,
            final(self).buffer.scroll_offset == 0,
            final(self).last_update_ms == old(self).last_update_ms,
            final(self).speed_ms == old(self).speed_ms,
            final(self).cursor_visible == old(self).cursor_visible,
            final(self).cursor_blink_ms == old(self).cursor_blink_ms,
            final(self).viewport_height == old(self).viewport_height,
            final(self).terminal_lines == old(self).terminal_lines,
            final(self).active_pane == old(self).active_pane,
    {
        let ghost changes_v = metadata@;
        self.steps.clear();
        self.current_step = 0;
        self.state = AnimationState::Playing;
        self.current_file_index = 0;
        self.pause_until_ms = Option::None;
        proof {
            assert(self.steps_view() =~= Seq::<StepView>::empty());
            assert(self.steps_view() =~= commit_steps_at(changes_v, 0));
        }
        let mut i: usize = 0;
        while i < metadata.changes.len()
            invariant
                i <= metadata.changes.len(),
                changes_v == metadata@,
                changes_v.len() == metadata.changes.len(),
                commit_fits(changes_v),
                self.steps_view() =~= commit_steps_at(changes_v, i as int),
                self.state == AnimationState::Playing,
                self.current_step == 0,
                self.current_file_index == 0,
                (self.pause_until_ms is None),
                self.buffer == old(self).buffer,
                self.last_update_ms == old(self).last_update_ms,
                self.speed_ms == old(self).speed_ms,
                self.cursor_visible == old(self).cursor_visible,
                self.cursor_blink_ms == old(self).cursor_blink_ms,
                self.viewport_height == old(self).viewport_height,
                self.terminal_lines == old(self).terminal_lines,
                self.active_pane == old(self).active_pane,
            decreases metadata.changes.len() - i,
        {
            let change = &metadata.changes[i];
            let content: String = match &change.old_content {
                Option::Some(c) => c.clone(),
                Option::None => String::new(),
            };
            let ghost pre = self.steps_view();
            self.steps.push(AnimationStep::SwitchFile { file_index: i, content });
            self.steps.push(AnimationStep::Pause { duration_ms: 1000 });
            proof {
                assert(self.steps_view() =~= pre + seq![
                    StepView::SwitchFile {
                        file_index: i as int,
                        content: start_content(changes_v[i as int]),
                    },
                    StepView::Pause { duration_ms: 1000 },
                ]);
            }
            self.generate_steps_for_file(change);
            if i + 1 < metadata.changes.len() {
                let ghost pre2 = self.steps_view();
                self.steps.push(AnimationStep::Pause { duration_ms: 2000 });
                proof {
                    assert(self.steps_view() =~= pre2.push(StepView::Pause { duration_ms: 2000 }));
                }
            }
            proof {
                assert(self.steps_view() =~= commit_steps_at(changes_v, i + 1));
            }
            i = i + 1;
        }
        let ghost pre3 = self.steps_view();
        self.steps.push(AnimationStep::Pause { duration_ms: 3000 });
        proof {
            assert(self.steps_view() =~= pre3.push(StepView::Pause { duration_ms: 3000 }));
            assert(self.steps_view() =~= commit_steps(changes_v));
        }
        if metadata.changes.len() > 0 {
            match &metadata.changes[0].old_content {
                Option::Some(old_content) => {
                    self.buffer = EditorBuffer::from_content(old_content.as_str());
                },
                Option::None => {
                    self.buffer = EditorBuffer::new();
                    proof {
                        assert(seq![Seq::<char>::empty()] =~= split_lines(Seq::<char>::empty()));
                    }
                },
            }
        } else {
            self.buffer = EditorBuffer::new();
            proof {
                assert(seq![Seq::<char>::empty()] =~= split_lines(Seq::<char>::empty()));
            }
        }
    }
}

} // verus!

verus! {

/// The blink timer fires once 500 ms have passed since the last toggle.
pub open spec fn blink_due(e: AnimationEngine, now: u64) -> bool {
    now.saturating_sub(e.cursor_blink_ms) >= 500
}

/// A step-level pause is still holding playback back.
pub open spec fn pause_blocking(e: AnimationEngine, now: u64) -> bool {
    match e.pause_until_ms {
        Option::Some(p) => now < p,
        Option::None => false,
    }
}

/// The per-step cadence interval has elapsed.
pub open spec fn step_due(e: AnimationEngine, now: u64) -> bool {
    now.saturating_sub(e.last_update_ms) >= e.speed_ms
}

/// The engine after the blink phase of a tick: visibility flipped and the
/// blink timer restarted when due, untouched otherwise.
pub open spec fn after_blink(e: AnimationEngine, now: u64) -> AnimationEngine {
    if blink_due(e, now) {
        AnimationEngine { cursor_visible: !e.cursor_visible, cursor_blink_ms: now, ..e }
    } else {
        e
    }
}

impl AnimationEngine {
    /// One driver-loop iteration at monotonic time `now_ms`; returns whether
    /// a redraw is warranted. First the blink timer is serviced whatever the
    /// state. A still-active pause only blinks; an elapsed pause is cleared.
    /// Playback advances one step per elapsed cadence interval; consuming the
    /// last step ends in `Finished`, which no further tick leaves.
    pub fn tick(&mut self, now_ms: u64) -> (r: bool)
        ensures
            ({
                let b = after_blink(*old(self), now_ms);
                if pause_blocking(b, now_ms) {
                    r == true && *final(self) == b
                } else {
                    let c = AnimationEngine { pause_until_ms: Option::None, ..b };
                    if c.state != AnimationState::Playing {
                        r == false && *final(self) == c
                    } else if !step_due(c, now_ms) {
                        r == false && *final(self) == c
                    } else if c.current_step >= c.steps.len() {
                        r == false && *final(self) == (AnimationEngine {
                            state: AnimationState::Finished,
                            ..c
                        })
                    } else {
                        r == true && step_effect(
                            AnimationEngine {
                                current_step: (c.current_step + 1) as usize,
                                last_update_ms: now_ms,
                                ..c
                            },
                            *final(self),
                            c.steps.deep_view()[c.current_step as int],
                            now_ms as int,
                        )
                    }
                }
            }),
    {
        if now_ms.saturating_sub(self.cursor_blink_ms) >= 500 {
            self.cursor_visible = !self.cursor_visible;
            self.cursor_blink_ms = now_ms;
        }
        match self.pause_until_ms {
            Option::Some(pause_until) => {
                if now_ms < pause_until {
                    return true;
                }
                self.pause_until_ms = Option::None;
            },
            Option::None => {},
        }
        if self.state != AnimationState::Playing {
            return false;
        }
        if now_ms.saturating_sub(self.last_update_ms) < self.speed_ms {
            return false;
        }
        if self.current_step >= self.steps.len() {
            self.state = AnimationState::Finished;
            return false;
        }
        let step = self.steps[self.current_step].duplicate();
        self.current_step = self.current_step + 1;
        self.last_update_ms = now_ms;
        self.execute_step(step, now_ms);
        true
    }
}

} // verus!

verus! {

proof fn lemma_move_down_len(from: int, to: int)
    requires
        from <= to,
    ensures
        move_steps_down(from, to).len() == 2 * (to - from),
    decreases to - from,
{
    if from < to {
        lemma_move_down_len(from, to - 1);
    }
}

proof fn lemma_move_up_len(from: int, to: int)
    requires
        from >= to,
    ensures
        move_steps_up(from, to).len() == 2 * (from - to),
    decreases from - to,
{
    if from > to {
        lemma_move_up_len(from, to + 1);
    }
}

/// A cursor movement between distinct lines walks one line at a time: one
/// move step and one short pause per line crossed, and a single settling
/// pause at the end; a movement to the same line makes no steps at all.
pub proof fn lemma_movement_step_count(from: int, to: int)
    ensures
        from == to ==> movement_steps(from, to).len() == 0,
        from < to ==> movement_steps(from, to).len() == 2 * (to - from) + 1,
        from > to ==> movement_steps(from, to).len() == 2 * (from - to) + 1,
{
    if from < to {
        lemma_move_down_len(from, to);
    } else if from > to {
        lemma_move_up_len(from, to);
    }
}

} // verus!

verus! {

/// One pause step of duration `d`.
pub open spec fn pause_step(d: int) -> StepView {
    StepView::Pause { duration_ms: d }
}

/// How many pause steps of duration `d` a step sequence holds.
pub open spec fn count_pauses(s: Seq<StepView>, d: int) -> int
    decreases s.len(),
{
    if s.len() == 0 {
        0
    } else {
        count_pauses(s.drop_last(), d) + if s.last() == pause_step(d) {
            1int
        } else {
            0
        }
    }
}

/// How many hunks the first `n` file changes hold together.
pub open spec fn hunks_upto(changes: Seq<FileChangeView>, n: int) -> int
    decreases n,
{
    if n <= 0 {
        0
    } else {
        hunks_upto(changes, n - 1) + changes[n - 1].hunks.len()
    }
}

/// The number of hunks over all file changes of a commit.
pub open spec fn total_hunks(changes: Seq<FileChangeView>) -> int {
    hunks_upto(changes, changes.len() as int)
}

proof fn lemma_count_pauses_add(a: Seq<StepView>, b: Seq<StepView>, d: int)
    ensures
        count_pauses(a + b, d) == count_pauses(a, d) + count_pauses(b, d),
    decreases b.len(),
{
    if b.len() == 0 {
        assert(a + b =~= a);
    } else {
        lemma_count_pauses_add(a, b.drop_last(), d);
        assert((a + b).drop_last() =~= a + b.drop_last());
        assert((a + b).last() == b.last());
    }
}

proof fn lemma_count_pauses_pair(a: StepView, b: StepView, d: int)
    ensures
        count_pauses(seq![a, b], d) == (if a == pause_step(d) {
            1int
        } else {
            0
        }) + (if b == pause_step(d) {
            1int
        } else {
            0
        }),
{
    assert(seq![a, b].len() == 2);
    assert(seq![a, b].last() == b);
    assert(seq![a, b].drop_last() =~= seq![a]);
    lemma_count_pauses_one(a, d);
    assert(count_pauses(seq![a, b], d) == count_pauses(seq![a], d) + if b == pause_step(d) {
        1int
    } else {
        0
    });
}

proof fn lemma_count_pauses_one(a: StepView, d: int)
    ensures
        count_pauses(seq![a], d) == (if a == pause_step(d) {
            1int
        } else {
            0
        }),
{
    assert(seq![a].len() == 1);
    assert(seq![a].last() == a);
    assert(seq![a].drop_last() =~= Seq::<StepView>::empty());
    assert(count_pauses(Seq::<StepView>::empty(), d) == 0);
    assert(count_pauses(seq![a], d) == count_pauses(seq![a].drop_last(), d) + if a == pause_step(
        d,
    ) {
        1int
    } else {
        0
    });
}

proof fn lemma_char_steps_pauses(line: int, text: Seq<char>, d: int)
    ensures
        count_pauses(char_steps(line, text), d) == 0,
    decreases text.len(),
{
    if text.len() > 0 {
        lemma_char_steps_pauses(line, text.drop_last(), d);
        lemma_count_pauses_add(
            char_steps(line, text.drop_last()),
            seq![insert_char_step(line, text.len() - 1, text.last())],
            d,
        );
        lemma_count_pauses_one(insert_char_step(line, text.len() - 1, text.last()), d);
    }
}

proof fn lemma_move_down_pauses(from: int, to: int, d: int)
    requires
        d != 50,
    ensures
        count_pauses(move_steps_down(from, to), d) == 0,
    decreases to - from,
{
    if to > from {
        lemma_move_down_pauses(from, to - 1, d);
        lemma_count_pauses_add(move_steps_down(from, to - 1), seq![
            StepView::MoveCursor { line: to, col: 0 },
            StepView::Pause { duration_ms: 50 },
        ], d);
        lemma_count_pauses_pair(
            StepView::MoveCursor { line: to, col: 0 },
            StepView::Pause { duration_ms: 50 },
            d,
        );
    }
}

proof fn lemma_move_up_pauses(from: int, to: int, d: int)
    requires
        d != 50,
    ensures
        count_pauses(move_steps_up(from, to), d) == 0,
    decreases from - to,
{
    if from > to {
        lemma_move_up_pauses(from, to + 1, d);
        lemma_count_pauses_add(move_steps_up(from, to + 1), seq![
            StepView::MoveCursor { line: to, col: 0 },
            StepView::Pause { duration_ms: 50 },
        ], d);
        lemma_count_pauses_pair(
            StepView::MoveCursor { line: to, col: 0 },
            StepView::Pause { duration_ms: 50 },
            d,
        );
    }
}

proof fn lemma_movement_pauses(from: int, to: int, d: int)
    requires
        d != 50,
        d != 300,
    ensures
        count_pauses(movement_steps(from, to), d) == 0,
{
    if from < to {
        lemma_move_down_pauses(from, to, d);
        lemma_count_pauses_add(move_steps_down(from, to), seq![
            StepView::Pause { duration_ms: 300 },
        ], d);
        lemma_count_pauses_one(StepView::Pause { duration_ms: 300 }, d);
    } else if from > to {
        lemma_move_up_pauses(from, to, d);
        lemma_count_pauses_add(move_steps_up(from, to), seq![
            StepView::Pause { duration_ms: 300 },
        ], d);
        lemma_count_pauses_one(StepView::Pause { duration_ms: 300 }, d);
    }
}

proof fn lemma_hunk_line_pauses(st: HunkCursor, lc: LineChangeView, d: int)
    requires
        d != 50,
        d != 200,
        d != 300,
    ensures
        count_pauses(hunk_line_steps(st, lc), d) == 0,
{
    match lc.change_type {
        LineChangeType::Deletion => {
            lemma_count_pauses_pair(
                StepView::DeleteLine { line: st.old_line },
                StepView::Pause { duration_ms: 300 },
                d,
            );
        },
        LineChangeType::Addition => {
            lemma_count_pauses_one(
                StepView::InsertLine { line: st.new_line, content: Seq::<char>::empty() },
                d,
            );
            lemma_char_steps_pauses(st.new_line, lc.content, d);
            lemma_count_pauses_add(seq![
                StepView::InsertLine { line: st.new_line, content: Seq::<char>::empty() },
            ], char_steps(st.new_line, lc.content), d);
            lemma_count_pauses_add(seq![
                StepView::InsertLine { line: st.new_line, content: Seq::<char>::empty() },
            ] + char_steps(st.new_line, lc.content), seq![StepView::Pause { duration_ms: 200 }], d);
            lemma_count_pauses_one(StepView::Pause { duration_ms: 200 }, d);
        },
        LineChangeType::Context => {
            if st.new_line != st.cursor {
                lemma_count_pauses_pair(
                    StepView::MoveCursor { line: st.new_line, col: 0 },
                    StepView::Pause { duration_ms: 50 },
                    d,
                );
            }
        },
    }
}

proof fn lemma_hunk_steps_pauses(lines: Seq<LineChangeView>, init: HunkCursor, n: int, d: int)
    requires
        d != 50,
        d != 200,
        d != 300,
    ensures
        count_pauses(hunk_steps_at(lines, init, n), d) == 0,
    decreases n,
{
    if n > 0 {
        lemma_hunk_steps_pauses(lines, init, n - 1, d);
        lemma_hunk_line_pauses(hunk_state_at(lines, init, n - 1), lines[n - 1], d);
        lemma_count_pauses_add(
            hunk_steps_at(lines, init, n - 1),
            hunk_line_steps(hunk_state_at(lines, init, n - 1), lines[n - 1]),
            d,
        );
    }
}

proof fn lemma_file_steps_pauses(hunks: Seq<DiffHunkView>, n: int, d: int)
    requires
        d != 50,
        d != 200,
        d != 300,
    ensures
        count_pauses(file_steps_at(hunks, n), d) == if d == 1500 {
            if n >= 0 {
                n
            } else {
                0int
            }
        } else {
            0int
        },
    decreases n,
{
    if n > 0 {
        lemma_file_steps_pauses(hunks, n - 1, d);
        let prior = file_steps_at(hunks, n - 1);
        let mv = movement_steps(file_cursor_at(hunks, n - 1), hunks[n - 1].old_start);
        let hs = hunk_steps(hunks[n - 1], hunks[n - 1].old_start);
        lemma_movement_pauses(file_cursor_at(hunks, n - 1), hunks[n - 1].old_start, d);
        lemma_hunk_steps_pauses(
            hunks[n - 1].lines,
            hunk_init(hunks[n - 1], hunks[n - 1].old_start),
            hunks[n - 1].lines.len() as int,
            d,
        );
        lemma_count_pauses_one(StepView::Pause { duration_ms: 1500 }, d);
        lemma_count_pauses_add(prior, mv, d);
        lemma_count_pauses_add(prior + mv, hs, d);
        lemma_count_pauses_add(prior + mv + hs, seq![StepView::Pause { duration_ms: 1500 }], d);
    }
}

proof fn lemma_commit_steps_pauses(changes: Seq<FileChangeView>, n: int, d: int)
    requires
        d == 1500 || d == 2000,
        n <= changes.len(),
    ensures
        count_pauses(commit_steps_at(changes, n), d) == if d == 1500 {
            hunks_upto(changes, n)
        } else {
            if n <= 0 {
                0int
            } else if n < changes.len() {
                n
            } else {
                n - 1
            }
        },
    decreases n,
{
    if n > 0 {
        lemma_commit_steps_pauses(changes, n - 1, d);
        let prior = commit_steps_at(changes, n - 1);
        let head = seq![
            StepView::SwitchFile { file_index: n - 1, content: start_content(changes[n - 1]) },
            StepView::Pause { duration_ms: 1000 },
        ];
        let fs = file_steps(changes[n - 1].hunks);
        lemma_count_pauses_pair(
            StepView::SwitchFile { file_index: n - 1, content: start_content(changes[n - 1]) },
            StepView::Pause { duration_ms: 1000 },
            d,
        );
        lemma_file_steps_pauses(changes[n - 1].hunks, changes[n - 1].hunks.len() as int, d);
        lemma_count_pauses_add(prior, head, d);
        lemma_count_pauses_add(prior + head, fs, d);
        if n < changes.len() {
            lemma_count_pauses_one(StepView::Pause { duration_ms: 2000 }, d);
            lemma_count_pauses_add(prior + head + fs, seq![StepView::Pause { duration_ms: 2000 }], d);
        } else {
            assert(prior + head + fs + Seq::<StepView>::empty() =~= prior + head + fs);
        }
    }
}

/// One 1500 ms pause follows each hunk's edit steps and stands nowhere else,
/// so a commit's step sequence holds exactly one per hunk, over all files.
pub proof fn lemma_hunk_pause_count(changes: Seq<FileChangeView>)
    ensures
        count_pauses(commit_steps(changes), 1500) == total_hunks(changes),
{
    lemma_commit_steps_pauses(changes, changes.len() as int, 1500);
    lemma_count_pauses_one(StepView::Pause { duration_ms: 3000 }, 1500);
    lemma_count_pauses_add(commit_steps_at(changes, changes.len() as int), seq![
        StepView::Pause { duration_ms: 3000 },
    ], 1500);
}

/// A 2000 ms pause stands between two consecutive files' steps and nowhere
/// else: a commit's step sequence holds one fewer than it has files, and
/// none at all when it has no files.
pub proof fn lemma_between_files_pause_count(changes: Seq<FileChangeView>)
    ensures
        count_pauses(commit_steps(changes), 2000) == if changes.len() == 0 {
            0int
        } else {
            changes.len() - 1
        },
{
    lemma_commit_steps_pauses(changes, changes.len() as int, 2000);
    lemma_count_pauses_one(StepView::Pause { duration_ms: 3000 }, 2000);
    lemma_count_pauses_add(commit_steps_at(changes, changes.len() as int), seq![
        StepView::Pause { duration_ms: 3000 },
    ], 2000);
}

} // verus!
