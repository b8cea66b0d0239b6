use clay::diff::{finalize_and_push_diff, parse_diff_to_compact_format, CompactFileDiff};

fn lines(text: &str) -> Vec<String> {
    text.lines().map(String::from).collect()
}

#[test]
fn diff_output_is_split_per_file() {
    let out = "diff --git a/src/main.rs b/src/main.rs\n\
index 1..2 100644\n\
--- a/src/main.rs\n\
+++ b/src/main.rs\n\
@@ -1 +1 @@\n\
-old line\n\
+new line\n\
+another\n\
diff --git a/README.md b/README.md\n\
--- a/README.md\n\
+++ b/README.md\n\
@@ -3 +0,0 @@\n\
-gone\n";
    let diffs = parse_diff_to_compact_format(&lines(out));
    assert_eq!(diffs.len(), 2);
    assert_eq!(diffs[0].file, "src/main.rs");
    assert_eq!(diffs[0].additions, vec!["new line".to_string(), "another".to_string()]);
    assert_eq!(diffs[0].deletions, vec!["old line".to_string()]);
    assert_eq!(diffs[1].file, "README.md");
    assert!(diffs[1].additions.is_empty());
    assert_eq!(diffs[1].deletions, vec!["gone".to_string()]);
}

#[test]
fn files_without_changed_lines_are_dropped() {
    let out = "+stray line before any file\ndiff --git a/bin.dat b/bin.dat\nBinary files differ\n";
    assert!(parse_diff_to_compact_format(&lines(out)).is_empty());
    assert!(parse_diff_to_compact_format(&lines("+orphan\n-orphan\n")).is_empty());
    assert!(parse_diff_to_compact_format(&Vec::new()).is_empty());
}

#[test]
fn lock_file_diffs_are_truncated() {
    let mut diffs = Vec::new();
    let d = CompactFileDiff {
        file: "Cargo.lock".to_string(),
        additions: (0..8).map(|i| format!("a{}", i)).collect(),
        deletions: (0..4).map(|i| format!("d{}", i)).collect(),
    };
    finalize_and_push_diff(Some(d), &mut diffs);
    assert_eq!(diffs.len(), 1);
    assert_eq!(diffs[0].additions.len(), 6);
    assert_eq!(diffs[0].additions[5], "... (truncated lock file diff)");
    assert_eq!(diffs[0].deletions.len(), 4);
    let small = CompactFileDiff { file: "yarn.lock".to_string(), additions: vec!["x".to_string(); 10], deletions: vec![] };
    finalize_and_push_diff(Some(small), &mut diffs);
    assert_eq!(diffs[1].additions.len(), 10);
    finalize_and_push_diff(None, &mut diffs);
    assert_eq!(diffs.len(), 2);
}

#[test]
fn large_diffs_are_truncated() {
    let mut diffs = Vec::new();
    let d = CompactFileDiff {
        file: "src/big.rs".to_string(),
        additions: (0..200).map(|i| format!("a{}", i)).collect(),
        deletions: (0..101).map(|i| format!("d{}", i)).collect(),
    };
    finalize_and_push_diff(Some(d), &mut diffs);
    assert_eq!(diffs[0].additions.len(), 151);
    assert_eq!(diffs[0].additions[150], "... (truncated large diff)");
    assert_eq!(diffs[0].deletions.len(), 101);
    let exact = CompactFileDiff { file: "f".to_string(), additions: vec!["x".to_string(); 300], deletions: vec![] };
    finalize_and_push_diff(Some(exact), &mut diffs);
    assert_eq!(diffs[1].additions.len(), 300);
}
