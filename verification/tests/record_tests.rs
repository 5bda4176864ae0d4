use zama_core::record::parse_version_record;

#[test]
fn reads_the_version_field_unchanged() {
    assert_eq!(
        parse_version_record("{\"version\":\"1.2.3\"}"),
        Some("1.2.3".to_string())
    );
    assert_eq!(
        parse_version_record("{\"name\":\"zama\",\"version\":\"0.4.0-rc.1+build\"}"),
        Some("0.4.0-rc.1+build".to_string())
    );
    // No normalization: whatever string the field holds comes back.
    assert_eq!(
        parse_version_record("{\"version\":\" not-a-version \"}"),
        Some(" not-a-version ".to_string())
    );
}

#[test]
fn rejects_documents_without_a_version_string() {
    assert_eq!(parse_version_record(""), None);
    assert_eq!(parse_version_record("not json"), None);
    assert_eq!(parse_version_record("{\"version\":1}"), None);
    assert_eq!(parse_version_record("{\"version\":null}"), None);
    assert_eq!(parse_version_record("{\"Version\":\"1.2.3\"}"), None);
    assert_eq!(parse_version_record("[\"1.2.3\"]"), None);
    assert_eq!(parse_version_record("\"1.2.3\""), None);
    assert_eq!(parse_version_record("{\"version\":{\"v\":\"1.2.3\"}}"), None);
}
