use clay::lint::{check_rust_dependencies, update_file_header};

fn lines(v: &[&str]) -> Vec<String> {
    v.iter().map(|s| s.to_string()).collect()
}

#[test]
fn header_is_added_to_empty_file() {
    let mut l = Vec::new();
    assert!(update_file_header(&mut l, &"/* src/a.rs */".to_string()));
    assert_eq!(l, lines(&["/* src/a.rs */", ""]));
}

#[test]
fn old_header_comment_is_replaced() {
    let mut l = lines(&["// old header", "", "fn main() {}"]);
    assert!(update_file_header(&mut l, &"/* src/main.rs */".to_string()));
    assert_eq!(l, lines(&["/* src/main.rs */", "", "fn main() {}"]));
}

#[test]
fn code_on_first_line_is_kept_below_header() {
    let mut l = lines(&["use std::io;", "fn f() {}"]);
    assert!(update_file_header(&mut l, &"/* x.rs */".to_string()));
    assert_eq!(l, lines(&["/* x.rs */", "", "use std::io;", "fn f() {}"]));
}

#[test]
fn correct_header_is_left_alone() {
    let mut l = lines(&["/* x.rs */", "", "fn f() {}"]);
    assert!(!update_file_header(&mut l, &"/* x.rs */".to_string()));
    assert_eq!(l, lines(&["/* x.rs */", "", "fn f() {}"]));
    let mut l = lines(&["/* x.rs */", "// doc", "fn f() {}"]);
    assert!(!update_file_header(&mut l, &"/* x.rs */".to_string()));
    let mut l = lines(&["/* x.rs */"]);
    assert!(update_file_header(&mut l, &"/* x.rs */".to_string()));
    assert_eq!(l, lines(&["/* x.rs */", ""]));
}

#[test]
fn dependency_requirements_are_shortened() {
    let l = lines(&[
        "[package]",
        "version = \"1.2.3\"",
        "[dependencies]",
        "serde = { version = \"1.0.200\", features = [\"derive\"] }",
        "vte = \"0.15.0\"",
        "tiny = \"0.0.3\"",
        "[dev-dependencies]",
        "proptest = \"1.4.0\"",
        "[features]",
        "x = \"1.0.0\"",
    ]);
    let (out, modified) = check_rust_dependencies(&l);
    assert!(modified);
    assert_eq!(out[1], "version = \"1.2.3\"");
    assert_eq!(out[3], "serde = { version = \"1\", features = [\"derive\"] }");
    assert_eq!(out[4], "vte = \"0.15\"");
    assert_eq!(out[5], "tiny = \"0.0.3\"");
    assert_eq!(out[7], "proptest = \"1\"");
    assert_eq!(out[9], "x = \"1.0.0\"");
    let (again, modified_again) = check_rust_dependencies(&out);
    assert!(!modified_again);
    assert_eq!(again, out);
}
