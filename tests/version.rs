use clay::version::{
    get_updated_dependency_line, update_cargo_toml_version, update_package_json_version, VersionChange, VersionError,
};

fn lines(v: &[&str]) -> Vec<String> {
    v.iter().map(|s| s.to_string()).collect()
}

#[test]
fn cargo_patch_update() {
    let l = lines(&["[package]", "name = \"x\"", "  version = \"1.2.3\"  ", "[dependencies]", "version = \"9.9.9\""]);
    let u = update_cargo_toml_version(&l, VersionChange::Update).unwrap().unwrap();
    assert_eq!(u.index, 2);
    assert_eq!(u.line, "  version = \"1.2.4\"  ");
    assert_eq!((u.old_version.as_str(), u.new_version.as_str()), ("1.2.3", "1.2.4"));
}

#[test]
fn cargo_minor_bump_drops_pre_and_build() {
    let l = lines(&["[package]", "version = \"1.2.3-beta.1+b7\""]);
    let u = update_cargo_toml_version(&l, VersionChange::Bump).unwrap().unwrap();
    assert_eq!(u.old_version, "1.2.3-beta.1+b7");
    assert_eq!(u.new_version, "1.3.0");
    assert_eq!(u.line, "version = \"1.3.0\"");
}

#[test]
fn cargo_without_package_version() {
    let l = lines(&["[workspace]", "version = \"1.0.0\""]);
    assert!(matches!(update_cargo_toml_version(&l, VersionChange::Update), Ok(None)));
    let l = lines(&["[package]", "name = \"x\"", "[lib]", "version = \"1.0.0\""]);
    assert!(matches!(update_cargo_toml_version(&l, VersionChange::Update), Ok(None)));
    let l = lines(&["[package]", "version.workspace", "version = \"2.0.0\""]);
    let u = update_cargo_toml_version(&l, VersionChange::Update).unwrap().unwrap();
    assert_eq!((u.index, u.new_version.as_str()), (2, "2.0.1"));
    assert!(matches!(update_cargo_toml_version(&Vec::new(), VersionChange::Bump), Ok(None)));
}

#[test]
fn unparsable_and_overflowing_versions() {
    let l = lines(&["[package]", "version = \"abc\""]);
    match update_cargo_toml_version(&l, VersionChange::Update) {
        Err(VersionError::Unparsable(t)) => assert_eq!(t, "abc"),
        _ => panic!("expected an unparsable version"),
    }
    let l = lines(&["[package]", "version = \"1.2.18446744073709551615\""]);
    assert!(matches!(update_cargo_toml_version(&l, VersionChange::Update), Err(VersionError::Overflow)));
    let u = update_cargo_toml_version(&l, VersionChange::Bump).unwrap().unwrap();
    assert_eq!(u.new_version, "1.3.0");
}

#[test]
fn package_json_update() {
    let l = lines(&["{", "  \"name\": \"x\",", "  \"version\": \"0.1.0\",", "  \"private\": true", "}"]);
    let u = update_package_json_version(&l, VersionChange::Update).unwrap().unwrap();
    assert_eq!(u.index, 2);
    assert_eq!(u.line, "  \"version\": \"0.1.1\",");
    assert!(matches!(update_package_json_version(&lines(&["{", "}"]), VersionChange::Update), Ok(None)));
}

#[test]
fn dependency_versions_are_shortened() {
    assert_eq!(get_updated_dependency_line("serde = \"1.0.100\"", "1.0.100"), "serde = \"1\"");
    assert_eq!(get_updated_dependency_line("x = { version = \"0.3.1\" }", "0.3.1"), "x = { version = \"0.3\" }");
    assert_eq!(get_updated_dependency_line("x = \"0.0.4\"", "0.0.4"), "x = \"0.0.4\"");
    assert_eq!(get_updated_dependency_line("x = \"1\"", "1"), "x = \"1\"");
    assert_eq!(get_updated_dependency_line("x = \"12.0.0\"", "12.0.0"), "x = \"12\"");
}
