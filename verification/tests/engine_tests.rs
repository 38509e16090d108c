use commit_replay::animation::{ActivePane, AnimationEngine, AnimationState, AnimationStep};
use commit_replay::diff::{CommitMetadata, DiffHunk, FileChange, LineChange, LineChangeType};

#[test]
fn fresh_engine_is_idle() {
    let e = AnimationEngine::new(50);
    assert_eq!(e.state, AnimationState::Idle);
    assert!(!e.is_finished());
    assert_eq!(e.viewport_height, 20);
    assert_eq!(e.active_pane, ActivePane::Editor);
    assert!(e.cursor_visible);
}

#[test]
fn load_commit_starts_playing() {
    let mut e = AnimationEngine::new(50);
    let meta = CommitMetadata {
        changes: vec![FileChange {
            path: String::from("a.rs"),
            old_content: None,
            hunks: vec![],
        }],
    };
    e.load_commit(&meta);
    assert_eq!(e.state, AnimationState::Playing);
    assert!(!e.is_finished());
    assert_eq!(e.current_file_index, 0);
}

#[test]
fn single_addition_hello_plays_to_hello() {
    let mut e = AnimationEngine::new(0);
    let meta = CommitMetadata {
        changes: vec![FileChange {
            path: String::from("a.rs"),
            old_content: None,
            hunks: vec![DiffHunk {
                old_start: 0,
                lines: vec![LineChange {
                    change_type: LineChangeType::Addition,
                    content: String::from("hello"),
                }],
            }],
        }],
    };
    e.load_commit(&meta);
    let inserts = e
        .steps
        .iter()
        .filter(|s| matches!(s, AnimationStep::InsertChar { .. }))
        .count();
    assert_eq!(inserts, 5);
    let line_inserts = e
        .steps
        .iter()
        .filter(|s| matches!(s, AnimationStep::InsertLine { .. }))
        .count();
    assert_eq!(line_inserts, 1);
    let switches = e
        .steps
        .iter()
        .filter(|s| matches!(s, AnimationStep::SwitchFile { .. }))
        .count();
    assert_eq!(switches, 1);
    let mut now: u64 = 0;
    let mut guard = 0;
    while !e.is_finished() {
        now += 10_000;
        e.tick(now);
        guard += 1;
        assert!(guard < 1000, "playback did not finish");
    }
    assert_eq!(e.buffer.lines[0], "hello");
}

#[test]
fn movement_down_visits_each_line() {
    let mut e = AnimationEngine::new(50);
    let end = e.generate_cursor_movement(2, 5);
    assert_eq!(end, 5);
    let moves: Vec<usize> = e
        .steps
        .iter()
        .filter_map(|s| match s {
            AnimationStep::MoveCursor { line, .. } => Some(*line),
            _ => None,
        })
        .collect();
    assert_eq!(moves, vec![3, 4, 5]);
    let short_pauses = e
        .steps
        .iter()
        .filter(|s| matches!(s, AnimationStep::Pause { duration_ms: 50 }))
        .count();
    assert_eq!(short_pauses, 3);
    let settle_pauses = e
        .steps
        .iter()
        .filter(|s| matches!(s, AnimationStep::Pause { duration_ms: 300 }))
        .count();
    assert_eq!(settle_pauses, 1);
}

#[test]
fn movement_up_visits_each_line_in_reverse() {
    let mut e = AnimationEngine::new(50);
    let end = e.generate_cursor_movement(5, 2);
    assert_eq!(end, 2);
    let moves: Vec<usize> = e
        .steps
        .iter()
        .filter_map(|s| match s {
            AnimationStep::MoveCursor { line, .. } => Some(*line),
            _ => None,
        })
        .collect();
    assert_eq!(moves, vec![4, 3, 2]);
}

#[test]
fn scroll_offset_follows_cursor() {
    let mut e = AnimationEngine::new(50);
    let mut content = String::new();
    for i in 0..100 {
        if i > 0 {
            content.push('\n');
        }
        content.push_str("line");
    }
    e.buffer = commit_replay::buffer::EditorBuffer::from_content(&content);
    assert_eq!(e.buffer.lines.len(), 100);
    e.set_viewport_height(20);

    e.buffer.cursor_line = 5;
    e.update_scroll();
    assert_eq!(e.buffer.scroll_offset, 0);

    e.buffer.cursor_line = 50;
    e.update_scroll();
    assert_eq!(e.buffer.scroll_offset, 40);

    e.buffer.cursor_line = 95;
    e.update_scroll();
    assert_eq!(e.buffer.scroll_offset, 80);
}

#[test]
fn pause_structure_of_multi_file_commit() {
    let mut e = AnimationEngine::new(0);
    let hunk = |start: usize| DiffHunk {
        old_start: start,
        lines: vec![LineChange {
            change_type: LineChangeType::Addition,
            content: String::from("x"),
        }],
    };
    let meta = CommitMetadata {
        changes: vec![
            FileChange {
                path: String::from("a.rs"),
                old_content: Some(String::from("one\ntwo")),
                hunks: vec![hunk(0), hunk(1)],
            },
            FileChange {
                path: String::from("b.rs"),
                old_content: None,
                hunks: vec![hunk(0)],
            },
        ],
    };
    e.load_commit(&meta);
    let count = |d: u64| {
        e.steps
            .iter()
            .filter(|s| matches!(s, AnimationStep::Pause { duration_ms } if *duration_ms == d))
            .count()
    };
    assert_eq!(count(1500), 3, "one 1500 ms pause per hunk");
    assert_eq!(count(2000), 1, "a 2000 ms pause between files, none after the last");
    assert_eq!(count(3000), 1, "one final pause");
    assert_eq!(count(1000), 2, "one opening pause per file");
}

#[test]
fn finished_state_is_reached_once_and_kept() {
    let mut e = AnimationEngine::new(0);
    let meta = CommitMetadata {
        changes: vec![FileChange {
            path: String::from("a.rs"),
            old_content: Some(String::from("keep")),
            hunks: vec![],
        }],
    };
    e.load_commit(&meta);
    let mut now: u64 = 0;
    let mut guard = 0;
    while !e.is_finished() {
        assert_eq!(e.is_finished(), false);
        now += 10_000;
        e.tick(now);
        guard += 1;
        assert!(guard < 1000, "playback did not finish");
    }
    assert_eq!(e.state, AnimationState::Finished);
    now += 10_000;
    e.tick(now);
    assert!(e.is_finished());
    assert_eq!(e.state, AnimationState::Finished);
}

#[test]
fn two_file_playback_ends_on_second_file() {
    let mut e = AnimationEngine::new(0);
    let meta = CommitMetadata {
        changes: vec![
            FileChange {
                path: String::from("a.rs"),
                old_content: Some(String::from("gone\nstays")),
                hunks: vec![DiffHunk {
                    old_start: 0,
                    lines: vec![LineChange {
                        change_type: LineChangeType::Deletion,
                        content: String::new(),
                    }],
                }],
            },
            FileChange {
                path: String::from("b.rs"),
                old_content: None,
                hunks: vec![DiffHunk {
                    old_start: 0,
                    lines: vec![
                        LineChange {
                            change_type: LineChangeType::Addition,
                            content: String::from("fresh"),
                        },
                        LineChange {
                            change_type: LineChangeType::Addition,
                            content: String::from("start"),
                        },
                    ],
                }],
            },
        ],
    };
    e.load_commit(&meta);
    let mut now: u64 = 0;
    let mut guard = 0;
    while !e.is_finished() {
        now += 10_000;
        e.tick(now);
        guard += 1;
        assert!(guard < 2000, "playback did not finish");
    }
    assert_eq!(e.current_file_index, 1);
    assert_eq!(e.buffer.lines[0], "fresh");
    assert_eq!(e.buffer.lines[1], "start");
}

#[test]
fn paused_engine_does_not_advance() {
    let mut e = AnimationEngine::new(0);
    let meta = CommitMetadata {
        changes: vec![FileChange {
            path: String::from("a.rs"),
            old_content: None,
            hunks: vec![],
        }],
    };
    e.load_commit(&meta);
    e.set_paused(true);
    assert_eq!(e.state, AnimationState::Paused);
    let before = e.current_step;
    e.tick(10_000);
    assert_eq!(e.current_step, before);
    e.set_paused(false);
    assert_eq!(e.state, AnimationState::Playing);
}

#[test]
fn cursor_blinks_during_pause() {
    let mut e = AnimationEngine::new(0);
    assert!(e.cursor_visible);
    e.tick(600);
    assert!(!e.cursor_visible);
    e.tick(1200);
    assert!(e.cursor_visible);
}
