use duck::proto::UnitState;
use duck::units::{
    answer, describe, process_of, release_from_path, unasked, unit_state, MANAGED, PADD,
};
use duck::version::Version;

#[test]
fn a_release_path_names_its_version() {
    assert_eq!(
        release_from_path("/opt/robot/daemon/releases/0.4.0/bin/btd"),
        Some(Version::parse("0.4.0").unwrap())
    );
}

#[test]
fn a_dev_release_keeps_the_suffix_that_distinguishes_it() {
    let version = release_from_path("/opt/robot/daemon/releases/0.4.0-dev.271.7610e6e/bin/btd");
    assert_eq!(
        version,
        Some(Version::parse("0.4.0-dev.271.7610e6e").unwrap())
    );
    // And it must compare as older than the release it precedes, or "running an older build
    // than is installed" cannot be detected.
    let precedence = |v: &Version| semver::Version::parse(&v.to_string()).unwrap();
    assert!(precedence(&version.unwrap()) < precedence(&Version::parse("0.4.0").unwrap()));
}

#[test]
fn a_deleted_binary_still_names_its_release() {
    assert_eq!(
        release_from_path("/opt/robot/daemon/releases/0.3.0/bin/padd (deleted)"),
        Some(Version::parse("0.3.0").unwrap())
    );
}

#[test]
fn a_binary_outside_the_layout_has_no_release() {
    assert_eq!(
        release_from_path("/home/pierre/duck/target/debug/btd"),
        None
    );
    // A `releases` component whose child is not a version is not a release either.
    assert_eq!(release_from_path("/srv/releases/nightly/bin/btd"), None);
}

#[test]
fn the_first_pair_of_releases_and_a_version_decides() {
    assert_eq!(
        release_from_path("/releases/releases/1.2.3/releases/9.9.9/x"),
        Some(Version::new(1, 2, 3))
    );
    assert_eq!(release_from_path("releases/1.2.3"), Some(Version::new(1, 2, 3)));
    assert_eq!(release_from_path("releases"), None);
    assert_eq!(release_from_path(""), None);
    // A version needs all three numbers, and none of them may start with a zero.
    assert_eq!(release_from_path("/releases/1.2/x"), None);
    assert_eq!(release_from_path("/releases/01.2.3/x"), None);
}

#[test]
fn the_managers_words_become_states() {
    for word in ["active", "activating", "reloading"] {
        assert_eq!(unit_state(word), UnitState::Active, "{word}");
    }
    for word in ["inactive", "deactivating", "failed"] {
        assert_eq!(unit_state(word), UnitState::Inactive, "{word}");
    }
    assert_eq!(unit_state("maintenance"), UnitState::Unknown);
    assert_eq!(unit_state(""), UnitState::Unknown);
}

#[test]
fn only_a_running_process_is_inspected() {
    assert_eq!(answer("active", Some(7)), (UnitState::Active, Some(7)));
    assert_eq!(answer("active", None), (UnitState::Active, Some(0)));
    assert_eq!(answer("failed", Some(7)), (UnitState::Inactive, None));
    assert_eq!(
        process_of(Ok((UnitState::Active, Some(0)))),
        (UnitState::Active, None)
    );
    assert_eq!(
        process_of(Ok((UnitState::Active, Some(7)))),
        (UnitState::Active, Some(7))
    );
    assert_eq!(
        process_of(Ok((UnitState::Absent, None))),
        (UnitState::Absent, None)
    );
    assert_eq!(
        process_of(Err("no bus".into())),
        (UnitState::Unknown, None)
    );
}

#[test]
fn a_unit_is_described_by_its_binary() {
    let path = "/opt/robot/daemon/releases/0.3.0/bin/padd (deleted)";
    let running = describe(PADD, UnitState::Active, Some(path.into()));
    assert_eq!(running.unit, "padd.service");
    assert_eq!(running.release, Some(Version::new(0, 3, 0)));
    assert!(running.deleted);
    assert_eq!(running.binary.as_deref(), Some(path));

    let stopped = describe(PADD, UnitState::Inactive, Some(path.into()));
    assert_eq!(stopped.release, None);
    assert!(stopped.deleted);

    let nothing = unasked("btd.service");
    assert_eq!(nothing.state, UnitState::Unknown);
    assert_eq!(nothing.release, None);
    assert!(!nothing.deleted);
}

#[test]
fn every_managed_unit_is_listed_once() {
    assert_eq!(MANAGED.len(), 5);
    assert_eq!(MANAGED[0], "updaterd.service");
    assert_eq!(MANAGED[4], PADD);
}
