//! The places in a patch that findings point at.

use boro::anchors::{
    backticked_c_identifiers, cleanup_repair_and_validate_findings, drop_hallucinated_locations,
    drop_unanchored_locations, MessageConcernRepair,
};
use boro::diff_index::DiffIndex;
use boro::json::{Json, JsonMap, JsonNumber};
use serde_json::Value;

/// Reads a value from its text.
fn json(text: &str) -> Json {
    from_value(&serde_json::from_str(text).expect("valid JSON"))
}

fn from_value(value: &Value) -> Json {
    match value {
        Value::Null => Json::Null,
        Value::Bool(b) => Json::Bool(*b),
        Value::Number(n) => Json::Number(match (n.as_u64(), n.as_i64()) {
            (Some(n), _) => JsonNumber::Unsigned(n),
            (None, Some(n)) => JsonNumber::Negative(n),
            (None, None) => JsonNumber::Float(n.as_f64().expect("a number").to_bits()),
        }),
        Value::String(s) => Json::Text(s.clone()),
        Value::Array(items) => Json::List(items.iter().map(from_value).collect()),
        Value::Object(members) => {
            let mut map = JsonMap::new();
            for (name, value) in members {
                map.set(name, from_value(value));
            }
            Json::Object(map)
        }
    }
}

/// The member of a value, which must have it.
fn member<'a>(value: &'a Json, name: &str) -> &'a Json {
    value.get(name).expect(name)
}

/// The value at a place of a list.
fn item(value: &Json, index: usize) -> &Json {
    &value.as_list().expect("a list")[index]
}

fn same(a: &Json, b: &Json) -> bool {
    a.same(b)
}

const DIFF: &str = "\
diff --git a/foo.c b/foo.c
--- a/foo.c
+++ b/foo.c
@@ -10,3 +10,4 @@
 ctx
-removed
+added_a
+added_b
 last
";

const RENAME_DIFF: &str = "\
diff --git a/app/main.rs b/app/main_renamed.rs
similarity index 89%
rename from app/main.rs
rename to app/main_renamed.rs
--- a/app/main.rs
+++ b/app/main_renamed.rs
@@ -10,4 +10,4 @@ main flow
 trace!(\"before\");
-println!(\"old behavior\");
+println!(\"new behavior\");
 trace!(\"after\");
";

const DELETE_DIFF: &str = "\
diff --git a/app/removed.rs b/app/removed.rs
deleted file mode 100644
index 8f3..000
--- a/app/removed.rs
+++ /dev/null
@@ -5,2 +0,0 @@
-remove_me();
-cleanup();
";

const HEADER_LIKE_BODY_DIFF: &str = "\
diff --git a/scripts/example.txt b/scripts/example.txt
index 123..456 100644
--- a/scripts/example.txt
+++ b/scripts/example.txt
@@ -1,3 +1,4 @@
 alpha
--- looks like a header but is body
+++ still body, not a header
+tail line that must stay in the hunk
 omega
@@ -10,1 +11,1 @@
-old second line
+new second line
";

#[test]
fn keeps_location_on_real_hunk_line() {
    let idx = DiffIndex::from_unified_diff(DIFF);
    let mut findings = json(
        r#"{"findings": [
            {"problem": "x", "severity": "Low", "severity_explanation": "y",
             "location": {"file": "foo.c", "line": 11, "side": "RIGHT"}}
        ]}"#,
    );
    drop_unanchored_locations(&mut findings, &idx);
    let arr = findings.get_list("findings").unwrap();
    assert!(arr[0].get("location").is_some());
}

#[test]
fn drops_location_outside_any_hunk() {
    let idx = DiffIndex::from_unified_diff(DIFF);
    let mut findings = json(
        r#"{"findings": [
            {"problem": "x", "severity": "Low", "severity_explanation": "y",
             "location": {"file": "foo.c", "line": 999, "side": "RIGHT"}}
        ]}"#,
    );
    drop_unanchored_locations(&mut findings, &idx);
    let arr = findings.get_list("findings").unwrap();
    assert!(arr[0].get("location").is_none());
    // Finding itself survives.
    assert_eq!(arr[0].get_str("problem"), Some("x"));
}

#[test]
fn drops_location_that_does_not_contain_named_symbol() {
    let diff = "--- a/foo.c\n+++ b/foo.c\n@@ -1,3 +1,4 @@\n int unrelated;\n+int still_unrelated;\n+void target_helper(void);\n int tail;\n";
    let idx = DiffIndex::from_unified_diff(diff);
    let mut findings = json(
        r#"{"findings":[{
            "problem":"`target_helper()` has broken linkage",
            "severity":"High",
            "severity_explanation":"x",
            "location":{"file":"foo.c","line":2,"side":"RIGHT"}
        }]}"#,
    );
    drop_unanchored_locations(&mut findings, &idx);
    assert!(item(member(&findings, "findings"), 0).get("location").is_none());
}

#[test]
fn keeps_location_containing_named_symbol() {
    let diff = "--- a/foo.c\n+++ b/foo.c\n@@ -1,1 +1,1 @@\n+void target_helper(void);\n";
    let idx = DiffIndex::from_unified_diff(diff);
    let mut findings = json(
        r#"{"findings":[{
            "problem":"`target_helper()` has broken linkage",
            "severity":"High",
            "severity_explanation":"x",
            "location":{"file":"foo.c","line":1,"side":"RIGHT"}
        }]}"#,
    );
    drop_unanchored_locations(&mut findings, &idx);
    assert!(item(member(&findings, "findings"), 0).get("location").is_some());
}

#[test]
fn drops_only_line_end_when_line_anchors_but_end_does_not() {
    let idx = DiffIndex::from_unified_diff(DIFF);
    let mut findings = json(
        r#"{"findings": [
            {"problem": "x", "severity": "Low", "severity_explanation": "y",
             "location": {"file": "foo.c", "line": 11, "line_end": 999, "side": "RIGHT"}}
        ]}"#,
    );
    drop_unanchored_locations(&mut findings, &idx);
    let loc = member(item(member(&findings, "findings"), 0), "location");
    assert_eq!(loc.get_u64("line"), Some(11));
    assert!(loc.get("line_end").is_none());
}

#[test]
fn no_location_is_noop() {
    let idx = DiffIndex::from_unified_diff(DIFF);
    let mut findings = json(
        r#"{"findings": [
            {"problem": "x", "severity": "Low", "severity_explanation": "y"}
        ]}"#,
    );
    drop_unanchored_locations(&mut findings, &idx);
    assert!(item(member(&findings, "findings"), 0).get("location").is_none());
}

#[test]
fn wrong_side_drops_location() {
    // Line 13 is RIGHT (the `last` context line, new number 13); on the LEFT side line 13 is past
    // the hunk, so it does not exist.
    let idx = DiffIndex::from_unified_diff(DIFF);
    let mut findings = json(
        r#"{"findings": [
            {"problem": "x", "severity": "Low", "severity_explanation": "y",
             "location": {"file": "foo.c", "line": 13, "side": "LEFT"}}
        ]}"#,
    );
    drop_unanchored_locations(&mut findings, &idx);
    assert!(item(member(&findings, "findings"), 0).get("location").is_none());
}

#[test]
fn keeps_left_location_for_renamed_file_old_path() {
    let idx = DiffIndex::from_unified_diff(RENAME_DIFF);
    let mut findings = json(
        r#"{"findings": [
            {"problem": "x", "severity": "Low", "severity_explanation": "y",
             "location": {"file": "app/main.rs", "line": 11, "side": "LEFT"}}
        ]}"#,
    );
    drop_unanchored_locations(&mut findings, &idx);
    assert!(item(member(&findings, "findings"), 0).get("location").is_some());
}

#[test]
fn keeps_left_location_for_deleted_file() {
    let idx = DiffIndex::from_unified_diff(DELETE_DIFF);
    let mut findings = json(
        r#"{"findings": [
            {"problem": "x", "severity": "Low", "severity_explanation": "y",
             "location": {"file": "app/removed.rs", "line": 5, "side": "LEFT"}}
        ]}"#,
    );
    drop_unanchored_locations(&mut findings, &idx);
    assert!(item(member(&findings, "findings"), 0).get("location").is_some());
}

#[test]
fn keeps_later_hunk_after_header_like_body_lines() {
    let idx = DiffIndex::from_unified_diff(HEADER_LIKE_BODY_DIFF);
    let mut findings = json(
        r#"{"findings": [
            {"problem": "x", "severity": "Low", "severity_explanation": "y",
             "location": {"file": "scripts/example.txt", "line": 11, "side": "RIGHT"}}
        ]}"#,
    );
    drop_unanchored_locations(&mut findings, &idx);
    assert!(item(member(&findings, "findings"), 0).get("location").is_some());
}

#[test]
fn location_in_unchanged_file_is_dropped_and_the_finding_stays() {
    let mut findings = json(
        r#"{"findings": [
            {"problem": "a", "location": {"file": "foo.c", "line": 11}},
            {"problem": "b", "location": {"file": "bar.c", "line": 11}},
            {"problem": "c", "location": {"line": 11}},
            "d"
        ], "other": 1}"#,
    );
    drop_hallucinated_locations(&mut findings, &["foo.c".to_string()]);
    assert!(same(
        &findings,
        &json(
            r#"{"findings": [
                {"problem": "a", "location": {"file": "foo.c", "line": 11}},
                {"problem": "b"},
                {"problem": "c", "location": {"line": 11}},
                "d"
            ], "other": 1}"#
        )
    ));
}

#[test]
fn report_without_findings_is_left_alone() {
    let idx = DiffIndex::from_unified_diff(DIFF);
    for text in ["null", "[]", r#"{"findings": {"a": 1}}"#, r#"{"x": 2}"#] {
        let mut report = json(text);
        drop_hallucinated_locations(&mut report, &[]);
        drop_unanchored_locations(&mut report, &idx);
        assert!(same(&report, &json(text)));
    }
}

#[test]
fn incomplete_location_is_left_alone() {
    let idx = DiffIndex::from_unified_diff(DIFF);
    for location in [
        r#"{"file": "", "line": 999}"#,
        r#"{"file": "foo.c", "line": -3}"#,
        r#"{"line": 999}"#,
        r#""foo.c:999""#,
    ] {
        let text = format!(r#"{{"findings": [{{"problem": "x", "location": {location}}}]}}"#);
        let mut report = json(&text);
        drop_unanchored_locations(&mut report, &idx);
        assert!(same(&report, &json(&text)));
    }
}

#[test]
fn named_lines_that_are_not_shown_are_dropped() {
    let idx = DiffIndex::from_unified_diff(DIFF);
    let mut findings = json(
        r#"{"findings": [
            {"problem": "x", "location": {"file": "foo.c", "line": 0, "side": "RIGHT"}},
            {"problem": "x", "location": {"file": "foo.c", "line": 11, "line_end": 5, "side": "RIGHT"}},
            {"problem": "x", "location": {"file": "foo.c", "line": 11, "line_end": 10, "side": "RIGHT"}}
        ]}"#,
    );
    drop_unanchored_locations(&mut findings, &idx);
    assert!(same(
        &findings,
        &json(
            r#"{"findings": [
                {"problem": "x"},
                {"problem": "x", "location": {"file": "foo.c", "line": 11, "side": "RIGHT"}},
                {"problem": "x", "location": {"file": "foo.c", "line": 11, "line_end": 10, "side": "RIGHT"}}
            ]}"#
        )
    ));
}

#[test]
fn range_that_ends_before_it_starts_names_nothing() {
    let idx = DiffIndex::from_unified_diff(DIFF);
    let mut report = json(
        r#"{"findings": [
            {"problem": "`added_a` is wrong",
             "location": {"file": "foo.c", "line": 11, "line_end": 10}},
            {"problem": "`added_b` is wrong",
             "location": {"file": "foo.c", "line": 11, "line_end": 12}}
        ]}"#,
    );
    drop_unanchored_locations(&mut report, &idx);
    assert!(item(member(&report, "findings"), 0).get("location").is_none());
    assert!(item(member(&report, "findings"), 1).get("location").is_some());
}

#[test]
fn checking_locations_twice_changes_nothing_more() {
    let idx = DiffIndex::from_unified_diff(DIFF);
    let mut once = json(
        r#"{"findings": [
            {"problem": "`added_a` is wrong", "location": {"file": "foo.c", "line": 11, "line_end": 99}},
            {"problem": "x", "location": {"file": "foo.c", "line": 99}}
        ]}"#,
    );
    drop_unanchored_locations(&mut once, &idx);
    let mut twice = once.clone();
    drop_unanchored_locations(&mut twice, &idx);
    assert!(same(&once, &twice));
    assert!(same(
        &once,
        &json(
            r#"{"findings": [
                {"problem": "`added_a` is wrong", "location": {"file": "foo.c", "line": 11}},
                {"problem": "x"}
            ]}"#
        )
    ));
}

#[test]
fn invalid_location_is_cleaned_before_message_typo_repair() {
    let patch = "\
diff --git a/foo.c b/foo.c
--- a/foo.c
+++ b/foo.c
@@ -10 +10,2 @@
 context
+/* CPU is avaialable. */
";
    let mut findings = json(
        r#"{"findings": [{
            "problem": "commit message typo: `avaialable` should be `available`.",
            "severity": "Low",
            "severity_explanation": "The misspelling is in the commit message.",
            "offending_text": "avaialable",
            "replacement_text": "available",
            "location": {"file": "foo.c", "line": 999, "side": "RIGHT"}
        }]}"#,
    );

    // A repair that moves a finding without a location to the line that has the text.
    let repair = |report: Json| {
        let finding = item(member(&report, "findings"), 0).clone();
        assert!(finding.get("location").is_none());
        assert!(patch.lines().nth(5).unwrap().contains(finding.get_str("offending_text").unwrap()));
        let moved = finding
            .with("problem", Json::text("added source comment typo: `avaialable`"))
            .with("location", json(r#"{"file": "foo.c", "line": 11, "side": "RIGHT"}"#));
        let report = Json::object().with("findings", Json::List(vec![moved]));
        (report, MessageConcernRepair { relocated: 1, dropped: 0 })
    };
    assert!(DiffIndex::can_index(patch));
    let repaired =
        cleanup_repair_and_validate_findings(&mut findings, patch, &["foo.c".to_string()], &repair);

    assert_eq!(repaired.relocated, 1);
    assert_eq!(repaired.dropped, 0);
    let finding = item(member(&findings, "findings"), 0);
    assert_eq!(member(finding, "location").get_str("file"), Some("foo.c"));
    assert_eq!(member(finding, "location").get_u64("line"), Some(11));
    assert_eq!(member(finding, "location").get_str("side"), Some("RIGHT"));
    assert!(finding.get_str("problem").unwrap().contains("added source comment"));
}

#[test]
fn repaired_location_is_held_to_the_patch() {
    let mut findings = json(r#"{"findings": [{"problem": "x"}, {"problem": "y"}]}"#);
    let repair = |_: Json| {
        let report = json(
            r#"{"findings": [
                {"problem": "x", "location": {"file": "foo.c", "line": 999, "side": "RIGHT"}},
                {"problem": "y", "location": {"file": "foo.c", "line": 12, "side": "RIGHT"}}
            ]}"#,
        );
        (report, MessageConcernRepair { relocated: 2, dropped: 0 })
    };
    cleanup_repair_and_validate_findings(&mut findings, DIFF, &["foo.c".to_string()], &repair);
    assert!(item(member(&findings, "findings"), 0).get("location").is_none());
    assert!(item(member(&findings, "findings"), 1).get("location").is_some());
}

#[test]
fn identifiers_in_backticks() {
    let found = backticked_c_identifiers(
        "`foo()` calls ` bar ` and `baz()()`, `foo`, `9lives`, `a b`, ``, `_x9`, `foo ()`, `last",
    );
    assert_eq!(found, vec!["foo", "bar", "baz", "_x9"]);
    assert!(backticked_c_identifiers("no identifiers here").is_empty());
    assert!(backticked_c_identifiers("`größe`").is_empty());
}
