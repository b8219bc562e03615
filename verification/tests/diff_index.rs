//! Which lines of which files a diff shows.

use boro::diff_index::{contains_c_identifier, parse_diff_path, parse_hunk_header, DiffIndex, Side};

const SIMPLE_DIFF: &str = "\
diff --git a/foo.c b/foo.c
index 1111111..2222222 100644
--- a/foo.c
+++ b/foo.c
@@ -10,5 +10,7 @@
 ctx1
 ctx2
-removed_line
+added_one
+added_two
 ctx3
 ctx4
";

const RENAME_DIFF: &str = "\
diff --git a/app/main.rs b/app/main_renamed.rs
similarity index 89%
rename from app/main.rs
rename to app/main_renamed.rs
--- a/app/main.rs
+++ b/app/main_renamed.rs
@@ -10,4 +10,4 @@ main flow
 trace!(\"before\");
-println!(\"old behavior\");
+println!(\"new behavior\");
 trace!(\"after\");
";

const DELETE_DIFF: &str = "\
diff --git a/app/removed.rs b/app/removed.rs
deleted file mode 100644
index 8f3..000
--- a/app/removed.rs
+++ /dev/null
@@ -5,2 +0,0 @@
-console!(\"remove me\");
-cleanup();
";

const HEADER_LIKE_BODY_DIFF: &str = "\
diff --git a/scripts/example.txt b/scripts/example.txt
index 123..456 100644
--- a/scripts/example.txt
+++ b/scripts/example.txt
@@ -1,3 +1,4 @@
 alpha
--- looks like a header but is body
+++ still body, not a header
+tail line that must stay in the hunk
 omega
@@ -10,1 +11,1 @@
-old second line
+new second line
";

const MULTI_FILE_UNIFIED_DIFF: &str = "\
--- a/foo.c
+++ b/foo.c
@@ -1,1 +1,1 @@
-old
+new
--- a/bar.c
+++ b/bar.c
@@ -10,1 +10,1 @@
-old_bar
+new_bar
";

#[test]
fn indexes_added_lines_on_right() {
    let idx = DiffIndex::from_unified_diff(SIMPLE_DIFF);
    // ctx1 at old=10, new=10; ctx2 at 11/11; removed at old=12; added_one at new=12,
    // added_two at new=13; ctx3 at old=13, new=14; ctx4 at old=14, new=15.
    assert!(idx.contains("foo.c", 12, Side::Right));
    assert!(idx.contains("foo.c", 13, Side::Right));
}

#[test]
fn indexes_removed_lines_on_left() {
    let idx = DiffIndex::from_unified_diff(SIMPLE_DIFF);
    assert!(idx.contains("foo.c", 12, Side::Left));
}

#[test]
fn context_indexed_on_both_sides() {
    let idx = DiffIndex::from_unified_diff(SIMPLE_DIFF);
    // ctx1: old=10, new=10
    assert!(idx.contains("foo.c", 10, Side::Left));
    assert!(idx.contains("foo.c", 10, Side::Right));
    // ctx3: old=13, new=14
    assert!(idx.contains("foo.c", 13, Side::Left));
    assert!(idx.contains("foo.c", 14, Side::Right));
}

#[test]
fn rejects_lines_outside_hunk() {
    let idx = DiffIndex::from_unified_diff(SIMPLE_DIFF);
    // Line 9 is before the hunk starts; line 20 is after.
    assert!(!idx.contains("foo.c", 9, Side::Right));
    assert!(!idx.contains("foo.c", 20, Side::Right));
    // Wrong file.
    assert!(!idx.contains("bar.c", 10, Side::Right));
}

#[test]
fn multiple_files_in_one_diff() {
    let diff = "\
diff --git a/foo.c b/foo.c
--- a/foo.c
+++ b/foo.c
@@ -1,2 +1,2 @@
 ctx
-old
+new
diff --git a/bar.c b/bar.c
--- a/bar.c
+++ b/bar.c
@@ -100,1 +100,2 @@
 ctx
+inserted
";
    let idx = DiffIndex::from_unified_diff(diff);
    assert!(idx.contains("foo.c", 2, Side::Right));
    assert!(idx.contains("foo.c", 2, Side::Left));
    assert!(idx.contains("bar.c", 101, Side::Right));
    // bar.c line 2 must not bleed in from foo.c's counters.
    assert!(!idx.contains("bar.c", 2, Side::Right));
}

#[test]
fn new_file_ignores_dev_null_left() {
    let diff = "\
diff --git a/new.c b/new.c
new file mode 100644
--- /dev/null
+++ b/new.c
@@ -0,0 +1,2 @@
+line1
+line2
";
    let idx = DiffIndex::from_unified_diff(diff);
    assert!(idx.contains("new.c", 1, Side::Right));
    assert!(idx.contains("new.c", 2, Side::Right));
}

#[test]
fn rename_indexes_left_and_right_paths_separately() {
    let idx = DiffIndex::from_unified_diff(RENAME_DIFF);
    assert!(idx.contains("app/main.rs", 11, Side::Left));
    assert!(idx.contains("app/main_renamed.rs", 11, Side::Right));
}

#[test]
fn deleted_file_indexes_left_side_under_old_path() {
    let idx = DiffIndex::from_unified_diff(DELETE_DIFF);
    assert!(idx.contains("app/removed.rs", 5, Side::Left));
    assert!(!idx.contains("app/removed.rs", 5, Side::Right));
}

#[test]
fn header_like_hunk_body_lines_do_not_break_later_hunks() {
    let idx = DiffIndex::from_unified_diff(HEADER_LIKE_BODY_DIFF);
    assert!(idx.contains("scripts/example.txt", 11, Side::Right));
    assert!(idx.contains("scripts/example.txt", 10, Side::Left));
}

#[test]
fn declared_hunk_counts_keep_traditional_multifile_diffs_separate() {
    let idx = DiffIndex::from_unified_diff(MULTI_FILE_UNIFIED_DIFF);
    assert!(idx.contains("foo.c", 1, Side::Left));
    assert!(idx.contains("bar.c", 10, Side::Right));
    assert!(!idx.contains("bar.c", 1, Side::Right));
}

#[test]
fn handles_blank_context_lines() {
    // git diff emits a bare empty line for an all-blank context line (no leading space).
    let diff = "\
diff --git a/foo.c b/foo.c
--- a/foo.c
+++ b/foo.c
@@ -1,3 +1,4 @@
 first

+inserted
 last
";
    let idx = DiffIndex::from_unified_diff(diff);
    // Blank context line: old=2, new=2; inserted: new=3; last: old=3, new=4.
    assert!(idx.contains("foo.c", 2, Side::Right));
    assert!(idx.contains("foo.c", 2, Side::Left));
    assert!(idx.contains("foo.c", 3, Side::Right));
    assert!(idx.contains("foo.c", 4, Side::Right));
    assert!(idx.contains("foo.c", 3, Side::Left));
}

#[test]
fn empty_diff_indexes_nothing() {
    let idx = DiffIndex::from_unified_diff("");
    assert!(!idx.contains("anything", 1, Side::Right));
}

#[test]
fn side_from_str_defaults_to_right() {
    assert_eq!(Side::from_str("LEFT"), Side::Left);
    assert_eq!(Side::from_str("RIGHT"), Side::Right);
    assert_eq!(Side::from_str(""), Side::Right);
    assert_eq!(Side::from_str("weird"), Side::Right);
}

#[test]
fn semantic_range_requires_named_identifier() {
    let idx = DiffIndex::from_unified_diff(SIMPLE_DIFF);
    assert!(idx.range_contains_identifier(
        "foo.c",
        12,
        13,
        Side::Right,
        &["added_two".to_string()]
    ));
    assert!(!idx.range_contains_identifier(
        "foo.c",
        10,
        11,
        Side::Right,
        &["added_two".to_string()]
    ));
}

#[test]
fn diffs_in_one_text_are_indexed_as_if_each_stood_alone() {
    // The first hunk lacks one of its lines; the next file is read all the same.
    let first = "diff --git a/x.c b/x.c\n--- a/x.c\n+++ b/x.c\n@@ -1,3 +1,3 @@\n one\n-two\n";
    let second = "diff --git a/y.c b/y.c\n--- a/y.c\n+++ b/y.c\n@@ -5 +5 @@\n-old\n+new\n";
    let both = format!("{first}{second}");
    let parts = [DiffIndex::from_unified_diff(first), DiffIndex::from_unified_diff(second)];
    let whole = DiffIndex::from_unified_diff(&both);
    for file in ["x.c", "y.c"] {
        for line in 0..9 {
            for side in [Side::Left, Side::Right] {
                let apart = parts.iter().any(|index| index.contains(file, line, side));
                assert_eq!(whole.contains(file, line, side), apart, "{file} {line} {side:?}");
            }
        }
    }
    assert!(whole.contains("x.c", 2, Side::Left));
    assert!(!whole.contains("x.c", 2, Side::Right));
}

#[test]
fn later_hunk_line_gives_the_text() {
    let diff = "--- a/f\n+++ b/f\n@@ -0,0 +1 @@\n+first\n@@ -0,0 +1 @@\n+second\n";
    let index = DiffIndex::from_unified_diff(diff);
    let names = |name: &str| index.range_contains_identifier("f", 1, 1, Side::Right, &[name.to_string()]);
    assert!(names("second") && !names("first"));
}

#[test]
fn wider_range_names_more() {
    let index = DiffIndex::from_unified_diff(SIMPLE_DIFF);
    let wanted = ["ctx3".to_string()];
    assert!(!index.range_contains_identifier("foo.c", 10, 12, Side::Right, &wanted));
    assert!(index.range_contains_identifier("foo.c", 10, 20, Side::Right, &wanted));
    assert!(!index.range_contains_identifier("foo.c", 14, 10, Side::Right, &wanted));
}

#[test]
fn no_newline_marker_takes_no_line() {
    let diff = "--- a/f\n+++ b/f\n@@ -1,2 +1,2 @@\n-a\n\\ No newline at end of file\n+b\n c\n\\ No newline at end of file\n";
    let index = DiffIndex::from_unified_diff(diff);
    assert!(index.contains("f", 1, Side::Left) && index.contains("f", 1, Side::Right));
    assert!(index.contains("f", 2, Side::Left) && index.contains("f", 2, Side::Right));
    assert!(!index.contains("f", 3, Side::Left) && !index.contains("f", 3, Side::Right));
}

#[test]
fn line_numbers_that_do_not_fit_are_found_out() {
    let last = "--- a/f\n+++ b/f\n@@ -0,0 +18446744073709551614,2 @@\n+x\n";
    assert!(DiffIndex::can_index(last));
    assert!(DiffIndex::from_unified_diff(last).contains("f", u64::MAX - 1, Side::Right));
    assert!(!DiffIndex::can_index(&format!("{last}+y\n")));
    assert!(DiffIndex::can_index(SIMPLE_DIFF));
}

#[test]
fn hunk_headers() {
    let read = |line: &str| parse_hunk_header(&line.chars().collect::<Vec<_>>());
    assert_eq!(read("@@ -1,2 +3,4 @@ fn main()"), Some((1, 2, 3, 4)));
    assert_eq!(read("@@ -1 +3 @@"), Some((1, 1, 3, 1)));
    assert_eq!(read("@@ -+1 ++3 @@"), Some((1, 1, 3, 1)));
    for line in ["@@ -1 +3", "@@ 1 +3 @@", "@@ -1 3 @@", "@@-1 +3 @@", "@@ -1,x +3 @@", "@@  -1 +3 @@", "@@ -1,2,3 +3 @@"] {
        assert_eq!(read(line), None, "{line}");
    }
}

#[test]
fn paths_of_headers() {
    let read = |rest: &str| parse_diff_path(&rest.chars().collect::<Vec<_>>());
    assert_eq!(read("a/foo.c").as_deref(), Some("foo.c"));
    assert_eq!(read(" b/foo.c\t2026-01-01 ").as_deref(), Some("foo.c"));
    assert_eq!(read("b/a/foo.c").as_deref(), Some("a/foo.c"));
    assert_eq!(read("foo bar.c ").as_deref(), Some("foo bar.c"));
    assert_eq!(read("/dev/null"), None);
    assert_eq!(read("a/"), None);
    assert_eq!(read("  "), None);
}

#[test]
fn identifiers_stand_alone() {
    assert!(contains_c_identifier("x = foo(bar);", "foo"));
    assert!(!contains_c_identifier("x = foobar;", "foo"));
    assert!(!contains_c_identifier("x = _foo;", "foo"));
    assert!(contains_c_identifier("foofoo foo", "foo"));
    assert!(contains_c_identifier("äfooä", "foo"));
    assert!(contains_c_identifier("", "") && !contains_c_identifier("ab", ""));
    assert!(!contains_c_identifier("a b", "") && contains_c_identifier("a  b", ""));
}

#[test]
fn indexing_a_line_replaces_its_text_only() {
    let mut index = DiffIndex::new();
    let names = |index: &DiffIndex, file: &str, name: &str| {
        index.range_contains_identifier(file, 4, 4, Side::Left, &[name.to_string()])
    };
    index.insert("f", 4, Side::Left, &['a']);
    index.insert("g", 4, Side::Left, &['b']);
    index.insert("f", 4, Side::Left, &['c']);
    assert!(index.contains("f", 4, Side::Left) && index.contains("g", 4, Side::Left));
    assert!(!index.contains("f", 4, Side::Right) && !index.contains("f", 5, Side::Left));
    assert!(names(&index, "f", "c") && !names(&index, "f", "a") && names(&index, "g", "b"));
}
