use eacopy::get_version;

#[test]
fn test_get_version() {
    let version = get_version();
    assert!(version.is_ok());
    let version_str = version.unwrap();
    assert!(!version_str.is_empty());
}

#[test]
fn version_is_exact() {
    assert_eq!(get_version().unwrap(), "1.0.0");
}
