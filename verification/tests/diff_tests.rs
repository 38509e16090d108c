use commit_replay::diff::{parse_patch, LineChangeType};

#[test]
fn parse_single_file_patch() {
    let text = "diff --git a/greet.rs b/greet.rs\n--- a/greet.rs\n+++ b/greet.rs\n@@ -3,2 +3,3 @@\n context\n-old line\n+new line\n+added line\n";
    let files = parse_patch(text);
    assert_eq!(files.len(), 1);
    assert_eq!(files[0].path, "greet.rs");
    assert!(files[0].old_content.is_none());
    assert_eq!(files[0].hunks.len(), 1);
    let hunk = &files[0].hunks[0];
    assert_eq!(hunk.old_start, 2);
    assert_eq!(hunk.lines.len(), 4);
    assert_eq!(hunk.lines[0].change_type, LineChangeType::Context);
    assert_eq!(hunk.lines[0].content, "context");
    assert_eq!(hunk.lines[1].change_type, LineChangeType::Deletion);
    assert_eq!(hunk.lines[1].content, "old line");
    assert_eq!(hunk.lines[2].change_type, LineChangeType::Addition);
    assert_eq!(hunk.lines[2].content, "new line");
    assert_eq!(hunk.lines[3].change_type, LineChangeType::Addition);
    assert_eq!(hunk.lines[3].content, "added line");
}

#[test]
fn parse_two_file_patch_keeps_order() {
    let text = "diff --git a/a.rs b/a.rs\n--- a/a.rs\n+++ b/a.rs\n@@ -1,1 +1,1 @@\n-x\n+y\ndiff --git a/b.rs b/b.rs\n--- /dev/null\n+++ b/b.rs\n@@ -1,0 +1,1 @@\n+z\n";
    let files = parse_patch(text);
    assert_eq!(files.len(), 2);
    assert_eq!(files[0].path, "a.rs");
    assert_eq!(files[1].path, "b.rs");
    assert_eq!(files[0].hunks[0].old_start, 0);
    assert_eq!(files[0].hunks[0].lines.len(), 2);
    assert_eq!(files[1].hunks[0].lines.len(), 1);
    assert_eq!(files[1].hunks[0].lines[0].change_type, LineChangeType::Addition);
    assert_eq!(files[1].hunks[0].lines[0].content, "z");
}

#[test]
fn header_lines_between_files_are_not_content() {
    let text = "diff --git a/a.rs b/a.rs\n+++ b/a.rs\n@@ -1,1 +1,1 @@\n-x\ndiff --git a/b.rs b/b.rs\n--- a/b.rs\n+++ b/b.rs\n@@ -5,1 +5,1 @@\n x\n";
    let files = parse_patch(text);
    assert_eq!(files.len(), 2);
    assert_eq!(files[0].hunks[0].lines.len(), 1, "the second file's headers are no hunk content");
    assert_eq!(files[1].hunks[0].old_start, 4);
}

#[test]
fn stray_content_outside_hunks_is_ignored() {
    let files = parse_patch("+not a change\n-none\nplain\n");
    assert_eq!(files.len(), 0);
}

#[test]
fn deleted_file_gets_its_own_record() {
    let text = "diff --git a/gone.rs b/gone.rs\n--- a/gone.rs\n+++ /dev/null\n@@ -1,2 +0,0 @@\n-first\n-second\ndiff --git a/kept.rs b/kept.rs\n--- a/kept.rs\n+++ b/kept.rs\n@@ -1,1 +1,1 @@\n-old\n+new\n";
    let files = parse_patch(text);
    assert_eq!(files.len(), 2);
    assert_eq!(files[0].path, "gone.rs");
    assert_eq!(files[0].hunks.len(), 1);
    assert_eq!(files[0].hunks[0].lines.len(), 2);
    assert_eq!(files[0].hunks[0].lines[0].change_type, LineChangeType::Deletion);
    assert_eq!(files[0].hunks[0].lines[1].change_type, LineChangeType::Deletion);
    assert_eq!(files[1].path, "kept.rs");
    assert_eq!(files[1].hunks[0].lines.len(), 2);
}

#[test]
fn hunks_need_a_preceding_file_header() {
    let text = "diff --git a/x.rs b/x.rs\n@@ -1,1 +1,1 @@\n-a\n+b\ndiff --git a/y.rs b/y.rs\n--- a/y.rs\n+++ b/y.rs\n@@ -1,0 +1,1 @@\n+z\n";
    let files = parse_patch(text);
    assert_eq!(files.len(), 1, "a hunk with no header block opens no record");
    assert_eq!(files[0].path, "y.rs");
    assert_eq!(files[0].hunks.len(), 1);
}
