use commit_replay::animation::ActivePane;
use commit_replay::diff::LoadError;
use commit_replay::panes::editor::EditorPane;
use commit_replay::panes::terminal::TerminalPane;

#[test]
fn editor_content_height_subtracts_borders() {
    assert_eq!(EditorPane::content_height(24), 22);
    assert_eq!(EditorPane::content_height(2), 0);
    assert_eq!(EditorPane::content_height(1), 0);
}

#[test]
fn line_number_width_has_a_floor_of_three() {
    assert_eq!(EditorPane::line_number_width(0), 3);
    assert_eq!(EditorPane::line_number_width(9), 3);
    assert_eq!(EditorPane::line_number_width(999), 3);
    assert_eq!(EditorPane::line_number_width(1000), 4);
    assert_eq!(EditorPane::line_number_width(123456), 6);
}

#[test]
fn visible_range_clips_to_buffer() {
    assert_eq!(EditorPane::visible_range(0, 10, 5), (0, 5));
    assert_eq!(EditorPane::visible_range(7, 10, 5), (7, 10));
    assert_eq!(EditorPane::visible_range(12, 10, 5), (10, 10));
}

#[test]
fn cursor_split_counts_characters() {
    let (before, glyph, after) = EditorPane::split_line_at_cursor("héllo", 2);
    assert_eq!(before, "hé");
    assert_eq!(glyph, 'l');
    assert_eq!(after, "lo");
}

#[test]
fn cursor_past_line_end_shows_space() {
    let (before, glyph, after) = EditorPane::split_line_at_cursor("ab", 7);
    assert_eq!(before, "ab");
    assert_eq!(glyph, ' ');
    assert_eq!(after, "");
}

#[test]
fn terminal_shows_last_lines() {
    assert_eq!(TerminalPane::content_height(10), 8);
    assert_eq!(TerminalPane::visible_start(100, 8), 92);
    assert_eq!(TerminalPane::visible_start(5, 8), 0);
}

#[test]
fn command_lines_carry_the_tilde_prefix() {
    assert!(TerminalPane::is_command_line("~ git show"));
    assert!(!TerminalPane::is_command_line("output text"));
    assert!(!TerminalPane::is_command_line("~"));
    assert!(!TerminalPane::is_command_line("~x"));
}

#[test]
fn terminal_cursor_only_on_last_line_of_active_pane() {
    assert!(TerminalPane::shows_cursor(2, 4, 7, true, ActivePane::Terminal));
    assert!(!TerminalPane::shows_cursor(2, 3, 7, true, ActivePane::Terminal));
    assert!(!TerminalPane::shows_cursor(2, 4, 7, false, ActivePane::Terminal));
    assert!(!TerminalPane::shows_cursor(2, 4, 7, true, ActivePane::Editor));
}

#[test]
fn load_error_messages_name_the_failure() {
    assert_eq!(LoadError::NotFound.message(), "commit reference does not resolve");
    assert_eq!(LoadError::InvalidRepository.message(), "not a version-controlled directory");
    assert_eq!(LoadError::InvalidInput.message(), "invalid arguments");
    assert_eq!(LoadError::UnreadableContent.message(), "a file's content cannot be read");
}
