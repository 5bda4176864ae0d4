use zama_core::version::{is_update_available, parse_version};

#[test]
fn update_available_when_remote_is_newer() {
    assert!(is_update_available("1.2.0", "1.3.0"));
    assert!(is_update_available("1.2.3", "2.0.0"));
    assert!(is_update_available("1.2.3", "1.2.4"));
    assert!(is_update_available("0.9.9", "1.0.0"));
}

#[test]
fn no_update_when_equal_or_older() {
    assert!(!is_update_available("1.2.0", "1.2.0"));
    assert!(!is_update_available("1.3.0", "1.2.0"));
    assert!(!is_update_available("2.0.0", "1.9.9"));
    assert!(!is_update_available("1.2.3+build.1", "1.2.3+build.2"));
    assert!(!is_update_available("1.2.3", "1.2.3+build"));
}

#[test]
fn prerelease_precedence_chain() {
    let chain = [
        "1.0.0-alpha",
        "1.0.0-alpha.1",
        "1.0.0-alpha.beta",
        "1.0.0-beta",
        "1.0.0-beta.2",
        "1.0.0-beta.11",
        "1.0.0-rc.1",
        "1.0.0",
    ];
    for i in 0..chain.len() {
        for j in 0..chain.len() {
            assert_eq!(
                is_update_available(chain[i], chain[j]),
                i < j,
                "chain positions {} and {}",
                i,
                j
            );
        }
    }
}

#[test]
fn malformed_versions_never_report_an_update() {
    assert!(!is_update_available("abc", "1.0.0"));
    assert!(!is_update_available("1.0.0", "abc"));
    assert!(!is_update_available("1.0", "1.0.1"));
    assert!(!is_update_available("", "1.0.1"));
    assert!(!is_update_available("1.0.0", ""));
    assert!(!is_update_available("01.2.3", "2.0.0"));
    assert!(!is_update_available("1.2.3", "1.2.03"));
    assert!(!is_update_available("1.2.3-01", "1.2.4"));
    assert!(!is_update_available("1.2.3", "1.2.4-"));
    assert!(!is_update_available("1.2.3", "1.2.4+"));
    assert!(!is_update_available("1.2.3", "1.2.4-a..b"));
    assert!(!is_update_available("1.2.3.4", "1.2.4"));
    assert!(!is_update_available("1.2.3 ", "1.2.4"));
    assert!(!is_update_available("v1.2.3", "1.2.4"));
}

#[test]
fn parse_version_extracts_the_parts() {
    let v = parse_version("1.2.3-rc.1+build.5").expect("well-formed");
    assert_eq!(v.major, 1);
    assert_eq!(v.minor, 2);
    assert_eq!(v.patch, 3);
    let pre: Vec<String> = v.pre.iter().map(|id| id.iter().collect()).collect();
    assert_eq!(pre, vec!["rc".to_string(), "1".to_string()]);

    let plain = parse_version("10.20.30").expect("well-formed");
    assert_eq!(plain.major, 10);
    assert_eq!(plain.minor, 20);
    assert_eq!(plain.patch, 30);
    assert!(plain.pre.is_empty());

    assert!(parse_version("1.2").is_none());
    assert!(parse_version("1.2.3-").is_none());
    assert!(parse_version("1.2.3-a_b").is_none());
    assert!(parse_version("18446744073709551616.0.0").is_none());
    assert!(parse_version("18446744073709551615.0.0").is_some());
}

#[test]
fn agrees_with_the_semver_crate() {
    let samples = [
        "1.2.0",
        "1.3.0",
        "1.2.3",
        "0.0.0",
        "2.0.0-alpha",
        "2.0.0-alpha.1",
        "2.0.0-alpha.beta",
        "2.0.0-beta.11",
        "2.0.0-rc.1",
        "2.0.0",
        "1.2.3+build.7",
        "1.2.3-rc.1+build.7",
        "10.0.0",
        "1.10.0",
        "1.0.10",
        "1.0.0-1",
        "1.0.0-2",
        "1.0.0-11",
        "1.0.0--",
        "1.0.0-a-b.c",
        "1.0.0-99999999999999999999998",
        "1.0.0-99999999999999999999999",
        "bad",
        "1.2",
        "01.2.3",
        "1.2.3-01",
        "",
    ];
    for a in samples.iter() {
        for b in samples.iter() {
            // Build metadata carries no precedence, so the comparison to
            // match is the crate's `cmp_precedence`, not its total `Ord`.
            let expected = match (semver::Version::parse(a), semver::Version::parse(b)) {
                (Ok(x), Ok(y)) => y.cmp_precedence(&x) == std::cmp::Ordering::Greater,
                _ => false,
            };
            assert_eq!(
                is_update_available(a, b),
                expected,
                "disagrees with semver on ({:?}, {:?})",
                a,
                b
            );
        }
    }
}
