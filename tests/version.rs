use worker_sim::version::Version;

#[test]
fn version_test() {
    // Given expected version
    let expected = "2.0.0";

    // when I create a Version struct with this expected version
    let v = Version {
        version: expected.parse().unwrap(),
    };
    let actual = v.version;

    // Then
    assert_eq!(expected, actual)
}

#[test]
fn version_new_and_text() {
    let v = Version::new("1.0.0".to_string());
    assert_eq!(v.version, "1.0.0");
    assert_eq!(v.text(), "1.0.0");
}
