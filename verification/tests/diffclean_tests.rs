use extension_version_watcher::diffclean::{evaluate_diff_output, sanitize_diff, DiffError};

#[test]
fn timestamp_after_filename_on_same_line_is_stripped() {
    let diff = "--- ./a/app.js\t2021-09-14 10:22:00.000000000 -0700\n+++ ./b/app.js\t2021-09-15 08:00:00.000000000 -0700\n@@ -1 +1 @@\n";
    let got = sanitize_diff(diff);
    assert_eq!(got, "--- ./a/app.js\n+++ ./b/app.js\n@@ -1 +1 @@\n");
}

#[test]
fn timestamp_line_following_a_filename_line_is_emptied() {
    let diff = "app.js\n\t2021-09-14 10:22:00.000000000 -0700\n unchanged\n";
    let got = sanitize_diff(diff);
    assert_eq!(got, "app.js\n\n unchanged\n");
}

#[test]
fn unrelated_lines_are_untouched() {
    let diff = "@@ -3,4 +3,4 @@\n-\tindented with a tab, no date\n+\t20 items\n context\n";
    let got = sanitize_diff(diff);
    assert_eq!(got, diff);
}

#[test]
fn identical_trees_give_empty_diff_text() {
    assert_eq!(sanitize_diff(""), "");
}

#[test]
fn tab_with_partial_date_is_kept() {
    let diff = "a\t202-09 b\n";
    assert_eq!(sanitize_diff(diff), diff);
}

#[test]
fn blank_stderr_is_success_with_sanitized_stdout() {
    let stdout = "--- x\t2021-09-14 10:22:00.000000000 -0700\nbody\n";
    let r = evaluate_diff_output(stdout, " \n\t ");
    assert_eq!(r.unwrap(), "--- x\nbody\n");
}

#[test]
fn non_blank_stderr_is_a_hard_failure() {
    let r = evaluate_diff_output("diff text", "diff: ./old: No such file or directory\n");
    assert!(matches!(r, Err(DiffError::ToolStderr)));
}
