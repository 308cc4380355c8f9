use duck::client::Failure;
use duck::exit;
use duck::proto::{
    build_info, ComponentId, ComponentStatus, HelloResult, InstalledRelease, Phase,
};
use duck::report::{
    component_report, render_version, service_report, version_report, version_warnings,
    ComponentReport, ServiceReport, VersionReport,
};
use duck::version::Version;

fn report(services: Vec<ServiceReport>, daemon_installed: Option<&str>) -> VersionReport {
    VersionReport {
        robotctl: "0.2.0".into(),
        robotctl_revision: None,
        services,
        components: vec![ComponentReport {
            name: "daemon".into(),
            installed: daemon_installed.map(str::to_owned),
            revision: None,
        }],
        warnings: Vec::new(),
    }
}

fn service(name: &'static str, version: &str) -> ServiceReport {
    ServiceReport {
        name,
        version: Some(version.into()),
        revision: None,
        error: None,
    }
}

#[test]
fn a_running_updaterd_behind_the_installed_release_is_flagged_and_explained() {
    let r = report(vec![service("updaterd", "0.1.0")], Some("0.2.0"));
    let warnings = version_warnings(&r, Some(&Version::new(0, 1, 0)));

    assert_eq!(warnings.len(), 1, "{warnings:?}");
    let warning = &warnings[0];
    assert!(warning.contains("running 0.1.0"), "{warning}");
    assert!(warning.contains("0.2.0"), "{warning}");
    assert!(
        warning.contains("never restarts itself"),
        "must explain why this is expected, not merely report it: {warning}"
    );
    assert!(
        warning.contains("reboot"),
        "must say what resolves it: {warning}"
    );
}

#[test]
fn matching_versions_produce_no_warning() {
    let r = report(
        vec![service("updaterd", "0.2.0"), service("robotd", "0.2.0")],
        Some("0.2.0"),
    );
    let warnings = version_warnings(&r, Some(&Version::new(0, 2, 0)));
    assert!(warnings.is_empty(), "{warnings:?}");
}

#[test]
fn a_lagging_robotd_gets_its_own_diagnosis() {
    let r = report(
        vec![service("updaterd", "0.2.0"), service("robotd", "0.1.0")],
        Some("0.2.0"),
    );
    let warnings = version_warnings(&r, Some(&Version::new(0, 2, 0)));

    assert_eq!(warnings.len(), 1, "{warnings:?}");
    assert!(
        warnings[0].starts_with("robotd is running 0.1.0"),
        "{:?}",
        warnings[0]
    );
    assert!(
        warnings[0].contains("restart set"),
        "must point at the restart, not at a reboot: {:?}",
        warnings[0]
    );
}

#[test]
fn an_unavailable_daemon_is_reported_rather_than_dropped() {
    let r = report(
        vec![ServiceReport::failed(
            "updaterd",
            "connection refused".into(),
        )],
        None,
    );
    let warnings = version_warnings(&r, None);

    assert_eq!(warnings.len(), 1, "{warnings:?}");
    assert!(warnings[0].contains("updaterd"), "{:?}", warnings[0]);
    assert!(
        warnings[0].contains("connection refused"),
        "{:?}",
        warnings[0]
    );

    // And it must render without panicking or claiming a version it does not know.
    let rendered = render_version(&r);
    assert!(rendered.contains("unavailable"), "{rendered}");
    assert!(!rendered.contains("0.0.0"), "{rendered}");
}

#[test]
fn rendering_shows_running_and_installed_together() {
    let mut r = report(vec![service("updaterd", "0.1.0")], Some("0.2.0"));
    r.warnings = version_warnings(&r, Some(&Version::new(0, 1, 0)));
    let rendered = render_version(&r);

    assert!(rendered.contains("running"), "{rendered}");
    assert!(rendered.contains("installed"), "{rendered}");
    assert!(rendered.contains("0.1.0"), "{rendered}");
    assert!(rendered.contains("0.2.0"), "{rendered}");
}

/// Another build of the same release is another version.
#[test]
fn a_lagging_configd_gets_its_own_diagnosis() {
    let r = report(vec![service("configd", "0.2.0+a")], Some("0.2.0+b"));
    let warnings = version_warnings(&r, None);
    assert_eq!(
        warnings,
        vec![
            "configd is running 0.2.0+a but the installed daemon release is 0.2.0+b.\n  \
             configd is in on_apply's restart set, so it should already be on the installed\n  \
             release. Check `systemctl status configd` and the update log."
                .to_owned()
        ]
    );
}

/// A version nobody can read is not a disagreement.
#[test]
fn an_unreadable_version_is_no_lag() {
    let r = report(vec![service("robotd", "nightly")], Some("0.2.0"));
    assert!(version_warnings(&r, None).is_empty());
    let r = report(vec![service("robotd", "0.1.0")], Some("nightly"));
    assert!(version_warnings(&r, Some(&Version::new(0, 1, 0))).is_empty());
}

fn hello(version: Option<Version>) -> HelloResult {
    HelloResult {
        api_version: 2,
        daemon_version: version,
        revision: Some("abc".into()),
    }
}

#[test]
fn the_whole_report_is_gathered_in_order() {
    let components = vec![ComponentReport {
        name: "daemon".into(),
        installed: Some("0.2.0".into()),
        revision: Some("def".into()),
    }];
    let r = version_report(
        build_info("0.2.0", Some("f00"), None),
        Ok(hello(Some(Version::new(0, 1, 0)))),
        Err(Failure::new(
            exit::UNREACHABLE,
            "cannot reach robotd\nIs it running?".into(),
        )),
        Ok(hello(None)),
        components,
    );
    let names: Vec<&str> = r.services.iter().map(|s| s.name).collect();
    assert_eq!(names, vec!["updaterd", "robotd", "configd"]);
    assert_eq!(r.robotctl_revision.as_deref(), Some("f00"));
    assert_eq!(r.warnings.len(), 2);
    assert!(r.warnings[0].starts_with("updaterd is running 0.1.0"));
    assert_eq!(
        r.warnings[1],
        "robotd could not be asked what it is running: cannot reach robotd\nIs it running?"
    );
    let rendered = render_version(&r);
    assert!(
        rendered.starts_with(
            "robotctl   0.2.0  rev f00\n\nrunning\n\
             \x20 updaterd   0.1.0    rev abc\n\
             \x20 robotd     unavailable — cannot reach robotd\n\
             \x20 configd    unknown  rev abc\n\
             \ninstalled\n\
             \x20 daemon       0.2.0    rev def\n\
             \n! updaterd is running 0.1.0"
        ),
        "{rendered}"
    );
}

#[test]
fn a_silent_failure_is_still_unavailable() {
    let r = VersionReport {
        robotctl: "1.0.0".into(),
        robotctl_revision: None,
        services: vec![ServiceReport::failed("robotd", String::new())],
        components: vec![],
        warnings: vec![],
    };
    assert_eq!(
        render_version(&r),
        "robotctl   1.0.0  rev unknown\n\nrunning\n  robotd     unavailable — unavailable\n"
    );
}

fn release(version: Version, active: bool, revision: Option<&str>) -> InstalledRelease {
    InstalledRelease {
        version,
        active,
        golden: false,
        source_revision: revision.map(str::to_owned),
    }
}

#[test]
fn a_component_has_the_revision_of_its_active_release() {
    let status = ComponentStatus {
        component: ComponentId::new("model"),
        installed: Some(Version::new(1, 2, 3)),
        phase: Phase::Idle,
        healthy: None,
        pinned: None,
        last_attempt: None,
    };
    let releases = vec![
        release(Version::new(1, 2, 2), false, Some("old")),
        release(Version::new(1, 2, 3), true, Some("new")),
        release(Version::new(1, 2, 4), true, Some("late")),
    ];
    let r = component_report(&status, Some(&releases));
    assert_eq!(r.name, "model");
    assert_eq!(r.installed.as_deref(), Some("1.2.3"));
    assert_eq!(r.revision.as_deref(), Some("new"));
    assert_eq!(component_report(&status, None).revision, None);
    // The first active release decides, even if it does not know its revision.
    let unknown = vec![
        release(Version::new(1, 2, 3), true, None),
        release(Version::new(1, 2, 4), true, Some("late")),
    ];
    assert_eq!(component_report(&status, Some(&unknown)).revision, None);
}

#[test]
fn a_daemon_is_reported_as_it_answered() {
    let ok = service_report("robotd", Ok(hello(Some(Version::parse("0.4.0-dev.1").unwrap()))));
    assert_eq!(ok.version.as_deref(), Some("0.4.0-dev.1"));
    assert_eq!(ok.revision.as_deref(), Some("abc"));
    assert_eq!(ok.error, None);
}
