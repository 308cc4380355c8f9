use duck::version::Version;

/// What is read is written as it was read.
#[test]
fn a_version_reads_back_as_it_was_written() {
    for text in [
        "0.1.0",
        "1.4.2",
        "0.4.0-dev.271.7610e6e",
        "1.0.0+build.5",
        "2.0.0-rc.1+sha.abc",
        "18446744073709551615.0.0",
    ] {
        let version = Version::parse(text).unwrap();
        assert_eq!(version.to_string(), text);
        assert!(Version::parse(&version.to_string()).unwrap().is(&version));
    }
}

#[test]
fn a_version_is_taken_apart() {
    let version = Version::parse("2.10.3-rc.1+sha.abc").unwrap();
    assert_eq!((version.major, version.minor, version.patch), (2, 10, 3));
    assert_eq!(version.pre, "rc.1");
    assert_eq!(version.build, "sha.abc");
    assert!(Version::parse("2.10.3").unwrap().is(&Version::new(2, 10, 3)));
    assert!(!version.is(&Version::new(2, 10, 3)));
}

#[test]
fn what_is_no_version_is_none() {
    for text in ["", "1", "1.2", "1.2.3.4", "a.b.c", "1.2.3-", "1.2.03", "18446744073709551616.0.0"] {
        assert_eq!(Version::parse(text), None, "{text}");
    }
}
