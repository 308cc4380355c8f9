//! What is running on this robot, and what is installed.
//!
//! Every failure to ask becomes a line of the report: a stopped daemon is exactly when somebody
//! wants to read it.
use vstd::prelude::*;

use crate::client::Failure;
use crate::net;
use crate::proto::{BuildInfo, ComponentStatus, HelloResult, InstalledRelease};
use crate::text;
use crate::version;
use crate::version::{Version, VersionView};

verus! {

/// What one daemon reports about itself, or why it could not be asked.
#[derive(Debug, PartialEq, Eq)]
pub struct ServiceReport {
    pub name: &'static str,
    /// `None` when the daemon could not be asked, or does not know.
    pub version: Option<String>,
    pub revision: Option<String>,
    /// Why the daemon could not be asked: not running, or answering something unreadable.
    pub error: Option<String>,
}

/// A component's installed release, as opposed to what is running.
#[derive(Debug, PartialEq, Eq)]
pub struct ComponentReport {
    pub name: String,
    pub installed: Option<String>,
    pub revision: Option<String>,
}

#[derive(Debug, PartialEq, Eq)]
pub struct VersionReport {
    pub robotctl: String,
    pub robotctl_revision: Option<String>,
    pub services: Vec<ServiceReport>,
    pub components: Vec<ComponentReport>,
    /// For a person: disagreements, and daemons that could not be asked.
    pub warnings: Vec<String>,
}

impl ServiceReport {
    pub fn failed(name: &'static str, why: String) -> (r: Self)
        ensures
            r.name@ == name@,
            r.version is None,
            r.revision is None,
            r.error == Some(why),
    {
        ServiceReport { name, version: None, revision: None, error: Some(why) }
    }
}

/// How a version is written, where there is one.
pub open spec fn written(v: Option<Version>) -> Option<Seq<char>> {
    match v {
        Some(v) => Some(version::version_text(v@)),
        None => None,
    }
}

/// Does `r` report on the daemon `name` what asking it gave?
pub open spec fn reports_on(
    r: ServiceReport,
    name: Seq<char>,
    asked: Result<HelloResult, Failure>,
) -> bool {
    &&& r.name@ == name
    &&& match asked {
        Ok(hello) => {
            &&& net::text_view(r.version) == written(hello.daemon_version)
            &&& r.revision == hello.revision
            &&& r.error is None
        },
        Err(failure) => {
            &&& r.version is None
            &&& r.revision is None
            &&& r.error == Some(failure.message)
        },
    }
}

/// The line on one daemon, from what asking it gave.
pub fn service_report(name: &'static str, asked: Result<HelloResult, Failure>) -> (r: ServiceReport)
    ensures
        reports_on(r, name@, asked),
        r.error is Some <==> asked is Err,
        asked matches Ok(hello) ==> (r.version is Some <==> hello.daemon_version is Some),
{
    match asked {
        Ok(hello) => {
            let version = match &hello.daemon_version {
                Some(v) => Some(v.to_string()),
                None => None,
            };
            ServiceReport { name, version, revision: hello.revision, error: None }
        },
        Err(failure) => ServiceReport::failed(name, failure.message),
    }
}

/// The revision of the first release that is active.
pub open spec fn active_revision(releases: Seq<InstalledRelease>, from: int) -> Option<String>
    decreases releases.len() - from,
{
    if 0 <= from < releases.len() {
        if releases[from].active {
            releases[from].source_revision
        } else {
            active_revision(releases, from + 1)
        }
    } else {
        None
    }
}

/// The installed release of one component, with the revision of the active one. `None` for
/// releases that could not be listed.
pub fn component_report(status: &ComponentStatus, releases: Option<&Vec<InstalledRelease>>) -> (r:
    ComponentReport)
    ensures
        r.name@ == status.component@,
        net::text_view(r.installed) == written(status.installed),
        r.revision == match releases {
            Some(list) => active_revision(list@, 0),
            None => None,
        },
{
    let installed = match &status.installed {
        Some(v) => Some(v.to_string()),
        None => None,
    };
    let mut revision: Option<String> = None;
    if let Some(list) = releases {
        let mut i: usize = 0;
        while i < list.len()
            invariant_except_break
                revision is None,
            invariant
                i <= list@.len(),
                active_revision(list@, 0) == active_revision(list@, i as int),
            ensures
                revision == active_revision(list@, 0),
            decreases list@.len() - i,
        {
            if list[i].active {
                revision = match &list[i].source_revision {
                    Some(rev) => Some(rev.clone()),
                    None => None,
                };
                break;
            }
            i = i + 1;
        }
    }
    ComponentReport { name: status.component.as_str().to_owned(), installed, revision }
}

// ── warnings ─────────────────────────────────────────────────────────────────

/// The version a possible text spells.
pub open spec fn parsed(s: Option<Seq<char>>) -> Option<VersionView> {
    match s {
        Some(s) => version::semver_parsed(s),
        None => None,
    }
}

/// The installed version of the first component of this name.
pub open spec fn installed_version(
    components: Seq<ComponentReport>,
    name: Seq<char>,
    from: int,
) -> Option<VersionView>
    decreases components.len() - from,
{
    if 0 <= from < components.len() {
        if components[from].name@ == name {
            parsed(net::text_view(components[from].installed))
        } else {
            installed_version(components, name, from + 1)
        }
    } else {
        None
    }
}

/// The running version of the first service of this name.
pub open spec fn running_version(
    services: Seq<ServiceReport>,
    name: Seq<char>,
    from: int,
) -> Option<VersionView>
    decreases services.len() - from,
{
    if 0 <= from < services.len() {
        if services[from].name@ == name {
            parsed(net::text_view(services[from].version))
        } else {
            running_version(services, name, from + 1)
        }
    } else {
        None
    }
}

/// Is the running version another than the installed one, both being known?
pub open spec fn disagree(running: Option<VersionView>, installed: Option<VersionView>) -> bool {
    running is Some && installed is Some && running != installed
}

/// The two versions of a disagreement.
pub open spec fn mismatch_text(
    service: Seq<char>,
    running: VersionView,
    installed: VersionView,
) -> Seq<char> {
    service + " is running "@ + version::version_text(running)
        + " but the installed daemon release is "@ + version::version_text(installed)
}

/// `updaterd` behind the installed release: expected until a reboot, alarming after one.
pub open spec fn updaterd_advice() -> Seq<char> {
    ".\n  Expected right after an update — updaterd never restarts itself, so it keeps\n  running the old binary until the next reboot. If this survives a reboot, the\n  new release is not being launched: check the `current` symlink and the unit's\n  ExecStart path."@
}

/// `robotd` behind the installed release: its restart did not take.
pub open spec fn robotd_advice() -> Seq<char> {
    ".\n  robotd is in on_apply's restart set, so it should already be on the installed\n  release: either the restart did not happen, or it failed and systemd restarted\n  the old binary. Check `systemctl status robotd` and the update log."@
}

/// `configd` behind the installed release: its restart did not take.
pub open spec fn configd_advice() -> Seq<char> {
    ".\n  configd is in on_apply's restart set, so it should already be on the installed\n  release. Check `systemctl status configd` and the update log."@
}

/// The warning about one service, where there is one to give.
pub open spec fn lag(
    service: Seq<char>,
    running: Option<VersionView>,
    installed: Option<VersionView>,
    advice: Seq<char>,
) -> Seq<Seq<char>> {
    if disagree(running, installed) {
        seq![mismatch_text(service, running->0, installed->0) + advice]
    } else {
        Seq::empty()
    }
}

/// The warning about one daemon that could not be asked.
pub open spec fn unasked_text(name: Seq<char>, why: Seq<char>) -> Seq<char> {
    name + " could not be asked what it is running: "@ + why
}

/// The warnings about daemons that could not be asked, in order.
pub open spec fn unasked(services: Seq<ServiceReport>) -> Seq<Seq<char>>
    decreases services.len(),
{
    if services.len() == 0 {
        Seq::empty()
    } else {
        match services.last().error {
            Some(why) => unasked(services.drop_last()).push(
                unasked_text(services.last().name@, why@),
            ),
            None => unasked(services.drop_last()),
        }
    }
}

/// Everything worth telling a person about: each daemon behind the installed release with its
/// own diagnosis, then each one that could not be asked.
pub open spec fn warnings_of(
    services: Seq<ServiceReport>,
    components: Seq<ComponentReport>,
    updaterd: Option<VersionView>,
) -> Seq<Seq<char>> {
    let installed = installed_version(components, "daemon"@, 0);
    lag("updaterd"@, updaterd, installed, updaterd_advice()) + lag(
        "robotd"@,
        running_version(services, "robotd"@, 0),
        installed,
        robotd_advice(),
    ) + lag(
        "configd"@,
        running_version(services, "configd"@, 0),
        installed,
        configd_advice(),
    ) + unasked(services)
}

fn find_installed(components: &Vec<ComponentReport>) -> (r: Option<Version>)
    ensures
        version::option_view(r) == installed_version(components@, "daemon"@, 0),
{
    let mut i: usize = 0;
    while i < components.len()
        invariant
            i <= components@.len(),
            installed_version(components@, "daemon"@, 0) == installed_version(
                components@,
                "daemon"@,
                i as int,
            ),
        decreases components@.len() - i,
    {
        if text::same(components[i].name.as_str(), "daemon") {
            return match &components[i].installed {
                Some(v) => Version::parse(v.as_str()),
                None => None,
            };
        }
        i = i + 1;
    }
    None
}

fn find_running(services: &Vec<ServiceReport>, name: &str) -> (r: Option<Version>)
    ensures
        version::option_view(r) == running_version(services@, name@, 0),
{
    let mut i: usize = 0;
    while i < services.len()
        invariant
            i <= services@.len(),
            running_version(services@, name@, 0) == running_version(services@, name@, i as int),
        decreases services@.len() - i,
    {
        if text::same(services[i].name, name) {
            return match &services[i].version {
                Some(v) => Version::parse(v.as_str()),
                None => None,
            };
        }
        i = i + 1;
    }
    None
}

fn mismatch(service: &str, running: &Version, installed: &Version, advice: &str) -> (r: String)
    ensures
        r@ == mismatch_text(service@, running@, installed@) + advice@,
{
    let mut out = service.to_owned();
    out.append(" is running ");
    out.append(running.to_string().as_str());
    out.append(" but the installed daemon release is ");
    out.append(installed.to_string().as_str());
    out.append(advice);
    out
}

fn warn_of_lag(
    warnings: &mut Vec<String>,
    service: &str,
    running: Option<&Version>,
    installed: &Option<Version>,
    advice: &str,
)
    ensures
        text::views(final(warnings)@) == text::views(old(warnings)@) + lag(
            service@,
            match running {
                Some(v) => Some(v@),
                None => None,
            },
            version::option_view(*installed),
            advice@,
        ),
{
    let ghost before = text::views(warnings@);
    if let (Some(running), Some(installed)) = (running, installed) {
        if !running.is(installed) {
            warnings.push(mismatch(service, running, installed, advice));
        }
    }
    assert(text::views(warnings@) =~= before + lag(
        service@,
        match running {
            Some(v) => Some(v@),
            None => None,
        },
        version::option_view(*installed),
        advice@,
    ));
}

/// Disagreements worth telling a person about.
pub fn version_warnings(report: &VersionReport, updaterd_running: Option<&Version>) -> (r: Vec<
    String,
>)
    ensures
        text::views(r@) == warnings_of(
            report.services@,
            report.components@,
            match updaterd_running {
                Some(v) => Some(v@),
                None => None,
            },
        ),
{
    let installed = find_installed(&report.components);
    let robotd = find_running(&report.services, "robotd");
    let configd = find_running(&report.services, "configd");
    let mut warnings: Vec<String> = Vec::new();
    assert(text::views(warnings@) == Seq::<Seq<char>>::empty());
    warn_of_lag(
        &mut warnings,
        "updaterd",
        updaterd_running,
        &installed,
        ".\n  Expected right after an update — updaterd never restarts itself, so it keeps\n  running the old binary until the next reboot. If this survives a reboot, the\n  new release is not being launched: check the `current` symlink and the unit's\n  ExecStart path.",
    );
    warn_of_lag(
        &mut warnings,
        "robotd",
        robotd.as_ref(),
        &installed,
        ".\n  robotd is in on_apply's restart set, so it should already be on the installed\n  release: either the restart did not happen, or it failed and systemd restarted\n  the old binary. Check `systemctl status robotd` and the update log.",
    );
    warn_of_lag(
        &mut warnings,
        "configd",
        configd.as_ref(),
        &installed,
        ".\n  configd is in on_apply's restart set, so it should already be on the installed\n  release. Check `systemctl status configd` and the update log.",
    );
    let ghost lags = text::views(warnings@);
    let mut i: usize = 0;
    assert(lags + unasked(report.services@.take(0)) == lags);
    while i < report.services.len()
        invariant
            i <= report.services@.len(),
            text::views(warnings@) == lags + unasked(report.services@.take(i as int)),
        decreases report.services@.len() - i,
    {
        let ghost before = text::views(warnings@);
        let service = &report.services[i];
        assert(report.services@.take(i + 1).drop_last() == report.services@.take(i as int));
        assert(report.services@.take(i + 1).last() == *service);
        if let Some(why) = &service.error {
            let mut w = service.name.to_owned();
            w.append(" could not be asked what it is running: ");
            w.append(why.as_str());
            let ghost said = w@;
            warnings.push(w);
            assert(text::views(warnings@) == before.push(said));
            assert(before.push(said) == lags + unasked(report.services@.take(i as int)).push(said));
        }
        i = i + 1;
    }
    assert(report.services@.take(i as int) == report.services@);
    assert(text::views(warnings@) =~= warnings_of(
        report.services@,
        report.components@,
        match updaterd_running {
            Some(v) => Some(v@),
            None => None,
        },
    ));
    warnings
}

/// Gather the whole report from what asking each daemon gave, in the order they are asked.
pub fn version_report(
    build: BuildInfo,
    updaterd: Result<HelloResult, Failure>,
    robotd: Result<HelloResult, Failure>,
    configd: Result<HelloResult, Failure>,
    components: Vec<ComponentReport>,
) -> (r: VersionReport)
    ensures
        r.robotctl@ == build.version@,
        net::text_view(r.robotctl_revision) == match build.revision {
            Some(rev) => Some(rev@),
            None => None,
        },
        r.services@.len() == 3,
        reports_on(r.services@[0], "updaterd"@, updaterd),
        reports_on(r.services@[1], "robotd"@, robotd),
        reports_on(r.services@[2], "configd"@, configd),
        r.components == components,
        text::views(r.warnings@) == warnings_of(
            r.services@,
            components@,
            match updaterd {
                Ok(hello) => version::option_view(hello.daemon_version),
                Err(_) => None,
            },
        ),
{
    let running: Option<Version> = match &updaterd {
        Ok(hello) => match &hello.daemon_version {
            Some(v) => Some(v.clone()),
            None => None,
        },
        Err(_) => None,
    };
    let mut services: Vec<ServiceReport> = Vec::new();
    services.push(service_report("updaterd", updaterd));
    services.push(service_report("robotd", robotd));
    services.push(service_report("configd", configd));
    let robotctl_revision = match build.revision {
        Some(rev) => Some(rev.to_owned()),
        None => None,
    };
    let mut report = VersionReport {
        robotctl: build.version.to_owned(),
        robotctl_revision,
        services,
        components,
        warnings: Vec::new(),
    };
    let warnings = version_warnings(&report, running.as_ref());
    report.warnings = warnings;
    report
}

// ── rendering ────────────────────────────────────────────────────────────────

/// A revision, or that it is unknown.
pub open spec fn rev_text(r: Option<String>) -> Seq<char> {
    match r {
        Some(rev) => "rev "@ + rev@,
        None => "rev unknown"@,
    }
}

/// The first line of a reason.
pub open spec fn brief(why: Seq<char>) -> Seq<char> {
    if why.len() == 0 {
        "unavailable"@
    } else {
        text::first_line_of(why)
    }
}

/// A possible text, or what stands in for it.
pub open spec fn or_else(s: Option<String>, default: Seq<char>) -> Seq<char> {
    match s {
        Some(s) => s@,
        None => default,
    }
}

/// The row of one service.
pub open spec fn service_row(s: ServiceReport) -> Seq<char> {
    match s.error {
        Some(why) => "  "@ + text::padded(s.name@, 10) + " unavailable — "@ + brief(why@) + "\n"@,
        None => "  "@ + text::padded(s.name@, 10) + " "@ + text::padded(
            or_else(s.version, "unknown"@),
            8,
        ) + " "@ + rev_text(s.revision) + "\n"@,
    }
}

/// The row of one component.
pub open spec fn component_row(c: ComponentReport) -> Seq<char> {
    "  "@ + text::padded(c.name@, 12) + " "@ + text::padded(or_else(c.installed, "none"@), 8) + " "@
        + rev_text(c.revision) + "\n"@
}

pub open spec fn service_rows(services: Seq<ServiceReport>) -> Seq<char>
    decreases services.len(),
{
    if services.len() == 0 {
        Seq::empty()
    } else {
        service_rows(services.drop_last()) + service_row(services.last())
    }
}

pub open spec fn component_rows(components: Seq<ComponentReport>) -> Seq<char>
    decreases components.len(),
{
    if components.len() == 0 {
        Seq::empty()
    } else {
        component_rows(components.drop_last()) + component_row(components.last())
    }
}

pub open spec fn warning_rows(warnings: Seq<String>) -> Seq<char>
    decreases warnings.len(),
{
    if warnings.len() == 0 {
        Seq::empty()
    } else {
        warning_rows(warnings.drop_last()) + ("\n! "@ + warnings.last()@ + "\n"@)
    }
}

/// The whole report: this program, what is running, what is installed, and the warnings.
pub open spec fn version_page(report: VersionReport) -> Seq<char> {
    "robotctl   "@ + report.robotctl@ + "  "@ + rev_text(report.robotctl_revision) + "\n"@
        + "\nrunning\n"@ + service_rows(report.services@) + (if report.components@.len() > 0 {
        "\ninstalled\n"@ + component_rows(report.components@)
    } else {
        Seq::empty()
    }) + warning_rows(report.warnings@)
}

fn rev(r: &Option<String>) -> (s: String)
    ensures
        s@ == rev_text(*r),
{
    match r {
        Some(rev) => "rev ".to_owned().concat(rev.as_str()),
        None => "rev unknown".to_owned(),
    }
}

fn text_or<'a>(s: &'a Option<String>, default: &'a str) -> (r: &'a str)
    ensures
        r@ == or_else(*s, default@),
{
    match s {
        Some(s) => s.as_str(),
        None => default,
    }
}

fn render_service(s: &ServiceReport) -> (r: String)
    ensures
        r@ == service_row(*s),
{
    let mut out = "  ".to_owned();
    out.append(text::pad(s.name, 10).as_str());
    match &s.error {
        Some(why) => {
            // The full text goes in the warnings; more than one line here would break the
            // columns.
            out.append(" unavailable — ");
            if why.as_str().is_empty() {
                out.append("unavailable");
            } else {
                out.append(text::first_line(why.as_str()).as_str());
            }
        },
        None => {
            out.append(" ");
            out.append(text::pad(text_or(&s.version, "unknown"), 8).as_str());
            out.append(" ");
            out.append(rev(&s.revision).as_str());
        },
    }
    out.append("\n");
    out
}

fn render_component(c: &ComponentReport) -> (r: String)
    ensures
        r@ == component_row(*c),
{
    let mut out = "  ".to_owned();
    out.append(text::pad(c.name.as_str(), 12).as_str());
    out.append(" ");
    out.append(text::pad(text_or(&c.installed, "none"), 8).as_str());
    out.append(" ");
    out.append(rev(&c.revision).as_str());
    out.append("\n");
    out
}

/// The report for a person to read.
pub fn render_version(report: &VersionReport) -> (r: String)
    ensures
        r@ == version_page(*report),
{
    let mut out = "robotctl   ".to_owned();
    out.append(report.robotctl.as_str());
    out.append("  ");
    out.append(rev(&report.robotctl_revision).as_str());
    out.append("\n");
    out.append("\nrunning\n");
    let ghost head = out@;
    let mut i: usize = 0;
    assert(head + service_rows(report.services@.take(0)) == head);
    while i < report.services.len()
        invariant
            i <= report.services@.len(),
            out@ == head + service_rows(report.services@.take(i as int)),
        decreases report.services@.len() - i,
    {
        assert(report.services@.take(i + 1).drop_last() == report.services@.take(i as int));
        assert(report.services@.take(i + 1).last() == report.services@[i as int]);
        out.append(render_service(&report.services[i]).as_str());
        i = i + 1;
        assert(out@ == head + service_rows(report.services@.take(i as int)));
    }
    assert(report.services@.take(i as int) == report.services@);
    let mut installed = String::new();
    if report.components.len() > 0 {
        installed.append("\ninstalled\n");
        assert(installed@ == "\ninstalled\n"@);
        let mut j: usize = 0;
        assert("\ninstalled\n"@ + component_rows(report.components@.take(0)) == "\ninstalled\n"@);
        while j < report.components.len()
            invariant
                j <= report.components@.len(),
                installed@ == "\ninstalled\n"@ + component_rows(report.components@.take(j as int)),
            decreases report.components@.len() - j,
        {
            assert(report.components@.take(j + 1).drop_last() == report.components@.take(j as int));
            assert(report.components@.take(j + 1).last() == report.components@[j as int]);
            installed.append(render_component(&report.components[j]).as_str());
            j = j + 1;
            assert(installed@ == "\ninstalled\n"@ + component_rows(
                report.components@.take(j as int),
            ));
        }
        assert(report.components@.take(j as int) == report.components@);
    }
    out.append(installed.as_str());
    let ghost upper = out@;
    let mut k: usize = 0;
    assert(upper + warning_rows(report.warnings@.take(0)) == upper);
    while k < report.warnings.len()
        invariant
            k <= report.warnings@.len(),
            out@ == upper + warning_rows(report.warnings@.take(k as int)),
        decreases report.warnings@.len() - k,
    {
        assert(report.warnings@.take(k + 1).drop_last() == report.warnings@.take(k as int));
        assert(report.warnings@.take(k + 1).last() == report.warnings@[k as int]);
        out.append("\n! ");
        out.append(report.warnings[k].as_str());
        out.append("\n");
        k = k + 1;
        assert(out@ == upper + warning_rows(report.warnings@.take(k as int)));
    }
    assert(report.warnings@.take(k as int) == report.warnings@);
    out
}

// ── what the report keeps ────────────────────────────────────────────────────

/// Where every daemon that could be asked runs the installed release, and every one could be
/// asked, there is nothing to warn about.
pub proof fn matching_versions_produce_no_warning(
    services: Seq<ServiceReport>,
    components: Seq<ComponentReport>,
    updaterd: Option<VersionView>,
)
    requires
        !disagree(updaterd, installed_version(components, "daemon"@, 0)),
        !disagree(
            running_version(services, "robotd"@, 0),
            installed_version(components, "daemon"@, 0),
        ),
        !disagree(
            running_version(services, "configd"@, 0),
            installed_version(components, "daemon"@, 0),
        ),
        forall|i: int| 0 <= i < services.len() ==> (#[trigger] services[i]).error is None,
    ensures
        warnings_of(services, components, updaterd).len() == 0,
{
    nobody_unasked(services);
}

proof fn nobody_unasked(services: Seq<ServiceReport>)
    requires
        forall|i: int| 0 <= i < services.len() ==> (#[trigger] services[i]).error is None,
    ensures
        unasked(services).len() == 0,
    decreases services.len(),
{
    if services.len() > 0 {
        assert(services[services.len() - 1].error is None);
        assert forall|i: int| 0 <= i < services.drop_last().len() implies (
        #[trigger] services.drop_last()[i]).error is None by {
            assert(services.drop_last()[i] == services[i]);
        }
        nobody_unasked(services.drop_last());
    }
}

/// A daemon that could not be asked is reported, with the reason, and never dropped.
pub proof fn a_daemon_that_could_not_be_asked_is_reported(
    services: Seq<ServiceReport>,
    components: Seq<ComponentReport>,
    updaterd: Option<VersionView>,
    i: int,
)
    requires
        0 <= i < services.len(),
        services[i].error is Some,
    ensures
        warnings_of(services, components, updaterd).contains(
            unasked_text(services[i].name@, services[i].error->0@),
        ),
{
    let said = unasked_text(services[i].name@, services[i].error->0@);
    unasked_names_each(services, i);
    let all = warnings_of(services, components, updaterd);
    let tail = unasked(services);
    let k = choose|k: int| 0 <= k < tail.len() && tail[k] == said;
    assert(all[all.len() - tail.len() + k] == said);
}

proof fn unasked_names_each(services: Seq<ServiceReport>, i: int)
    requires
        0 <= i < services.len(),
        services[i].error is Some,
    ensures
        unasked(services).contains(unasked_text(services[i].name@, services[i].error->0@)),
    decreases services.len(),
{
    let said = unasked_text(services[i].name@, services[i].error->0@);
    let rest = services.drop_last();
    if i == services.len() - 1 {
        assert(unasked(services)[unasked(rest).len() as int] == said);
    } else {
        unasked_names_each(rest, i);
        assert(rest[i] == services[i]);
        let k = choose|k: int| 0 <= k < unasked(rest).len() && unasked(rest)[k] == said;
        assert(unasked(services)[k] == said);
    }
}

/// `updaterd` and `robotd` behind the installed release are never told apart by less than the
/// whole diagnosis: the benign case is explained, the serious one points at the restart.
pub proof fn each_lag_has_its_own_diagnosis(running: VersionView, installed: VersionView)
    requires
        running != installed,
    ensures
        lag("updaterd"@, Some(running), Some(installed), updaterd_advice()) == seq![
            mismatch_text("updaterd"@, running, installed) + updaterd_advice(),
        ],
        lag("robotd"@, Some(running), Some(installed), robotd_advice()) == seq![
            mismatch_text("robotd"@, running, installed) + robotd_advice(),
        ],
        updaterd_advice() != robotd_advice(),
{
    reveal_strlit(
        ".\n  Expected right after an update — updaterd never restarts itself, so it keeps\n  running the old binary until the next reboot. If this survives a reboot, the\n  new release is not being launched: check the `current` symlink and the unit's\n  ExecStart path.",
    );
    reveal_strlit(
        ".\n  robotd is in on_apply's restart set, so it should already be on the installed\n  release: either the restart did not happen, or it failed and systemd restarted\n  the old binary. Check `systemctl status robotd` and the update log.",
    );
    assert(updaterd_advice()[4] == 'E');
    assert(robotd_advice()[4] == 'r');
}

/// The page in parts: this program's own line, the heading and one row for each service, where
/// there are components a heading and one row for each of them, and one block for each warning.
pub open spec fn page_parts(report: VersionReport) -> Seq<Seq<char>> {
    seq![
        "robotctl   "@,
        report.robotctl@,
        "  "@,
        rev_text(report.robotctl_revision),
        "\n"@,
        "\nrunning\n"@,
    ] + report.services@.map_values(|s: ServiceReport| service_row(s)) + (
    if report.components@.len() > 0 {
        seq!["\ninstalled\n"@] + report.components@.map_values(
            |c: ComponentReport| component_row(c),
        )
    } else {
        Seq::empty()
    }) + report.warnings@.map_values(|w: String| "\n! "@ + w@ + "\n"@)
}

proof fn service_rows_run_together(services: Seq<ServiceReport>)
    ensures
        service_rows(services) == text::run_together(
            services.map_values(|s: ServiceReport| service_row(s)),
        ),
    decreases services.len(),
{
    if services.len() > 0 {
        let rest = services.drop_last();
        service_rows_run_together(rest);
        assert(services.map_values(|s: ServiceReport| service_row(s)).drop_last()
            =~= rest.map_values(|s: ServiceReport| service_row(s)));
    }
}

proof fn component_rows_run_together(components: Seq<ComponentReport>)
    ensures
        component_rows(components) == text::run_together(
            components.map_values(|c: ComponentReport| component_row(c)),
        ),
    decreases components.len(),
{
    if components.len() > 0 {
        let rest = components.drop_last();
        component_rows_run_together(rest);
        assert(components.map_values(|c: ComponentReport| component_row(c)).drop_last()
            =~= rest.map_values(|c: ComponentReport| component_row(c)));
    }
}

proof fn warning_rows_run_together(warnings: Seq<String>)
    ensures
        warning_rows(warnings) == text::run_together(
            warnings.map_values(|w: String| "\n! "@ + w@ + "\n"@),
        ),
    decreases warnings.len(),
{
    if warnings.len() > 0 {
        let rest = warnings.drop_last();
        warning_rows_run_together(rest);
        assert(warnings.map_values(|w: String| "\n! "@ + w@ + "\n"@).drop_last()
            =~= rest.map_values(|w: String| "\n! "@ + w@ + "\n"@));
    }
}

proof fn the_top_of_the_page(report: VersionReport)
    ensures
        text::run_together(
            seq![
                "robotctl   "@,
                report.robotctl@,
                "  "@,
                rev_text(report.robotctl_revision),
                "\n"@,
                "\nrunning\n"@,
            ],
        ) == "robotctl   "@ + report.robotctl@ + "  "@ + rev_text(report.robotctl_revision) + "\n"@
            + "\nrunning\n"@,
{
    let rev = rev_text(report.robotctl_revision);
    let p1 = seq!["robotctl   "@];
    let p2 = p1.push(report.robotctl@);
    let p3 = p2.push("  "@);
    let p4 = p3.push(rev);
    let p5 = p4.push("\n"@);
    text::one_part("robotctl   "@);
    text::one_more_part(p1, report.robotctl@);
    text::one_more_part(p2, "  "@);
    text::one_more_part(p3, rev);
    text::one_more_part(p4, "\n"@);
    text::one_more_part(p5, "\nrunning\n"@);
    assert(p5.push("\nrunning\n"@) =~= seq![
        "robotctl   "@,
        report.robotctl@,
        "  "@,
        rev,
        "\n"@,
        "\nrunning\n"@,
    ]);
}

/// Nothing is left off the page and nothing is on it twice: it is its parts one after the other,
/// a row for every service, a row for every component and a block for every warning, in order.
#[verifier::rlimit(30)]
pub proof fn the_page_is_its_rows_in_order(report: VersionReport)
    ensures
        version_page(report) == text::run_together(page_parts(report)),
{
    let top = seq![
        "robotctl   "@,
        report.robotctl@,
        "  "@,
        rev_text(report.robotctl_revision),
        "\n"@,
        "\nrunning\n"@,
    ];
    let services = report.services@.map_values(|s: ServiceReport| service_row(s));
    let rows = report.components@.map_values(|c: ComponentReport| component_row(c));
    let installed: Seq<Seq<char>> = if report.components@.len() > 0 {
        seq!["\ninstalled\n"@] + rows
    } else {
        Seq::empty()
    };
    let warnings = report.warnings@.map_values(|w: String| "\n! "@ + w@ + "\n"@);
    service_rows_run_together(report.services@);
    component_rows_run_together(report.components@);
    warning_rows_run_together(report.warnings@);
    the_top_of_the_page(report);
    text::parts_and_parts(top, services);
    text::parts_and_parts(top + services, installed);
    text::parts_and_parts(top + services + installed, warnings);
    text::parts_and_parts(seq!["\ninstalled\n"@], rows);
    text::one_part("\ninstalled\n"@);
    assert(text::run_together(Seq::<Seq<char>>::empty()) == Seq::<char>::empty());
}

/// The rows of a list extended by one component are the rows of the list followed by the row of
/// the new one, and so for services and for warnings; there are none where the list is empty.
pub proof fn one_more_entry_is_one_more_row(
    components: Seq<ComponentReport>,
    c: ComponentReport,
    services: Seq<ServiceReport>,
    s: ServiceReport,
    warnings: Seq<String>,
    w: String,
)
    ensures
        component_rows(components.push(c)) == component_rows(components) + component_row(c),
        service_rows(services.push(s)) == service_rows(services) + service_row(s),
        warning_rows(warnings.push(w)) == warning_rows(warnings) + "\n! "@ + w@ + "\n"@,
        component_rows(Seq::empty()).len() == 0,
        service_rows(Seq::empty()).len() == 0,
        warning_rows(Seq::empty()).len() == 0,
{
    assert(components.push(c).drop_last() == components);
    assert(services.push(s).drop_last() == services);
    assert(warnings.push(w).drop_last() == warnings);
    let before = warning_rows(warnings);
    assert(before + ("\n! "@ + w@ + "\n"@) =~= before + "\n! "@ + w@ + "\n"@);
}

/// A component more on the page is its row between what the page had before the warnings and the
/// warnings, and nothing else changes; the first one also brings the heading.
#[verifier::rlimit(30)]
pub proof fn a_component_more_is_a_row_more_on_the_page(
    a: VersionReport,
    b: VersionReport,
    c: ComponentReport,
)
    requires
        b.robotctl == a.robotctl,
        b.robotctl_revision == a.robotctl_revision,
        b.services == a.services,
        b.warnings == a.warnings,
        b.components@ == a.components@.push(c),
    ensures
        exists|before: Seq<char>|
            #![trigger text::surrounded(version_page(a), before, Seq::empty(), warning_rows(a.warnings@))]
            text::surrounded(version_page(a), before, Seq::empty(), warning_rows(a.warnings@))
                && text::surrounded(
                version_page(b),
                before,
                if a.components@.len() == 0 {
                    "\ninstalled\n"@ + component_row(c)
                } else {
                    component_row(c)
                },
                warning_rows(a.warnings@),
            ),
{
    assert(b.components@.drop_last() == a.components@);
    let top = "robotctl   "@ + a.robotctl@ + "  "@ + rev_text(a.robotctl_revision) + "\n"@
        + "\nrunning\n"@ + service_rows(a.services@);
    let installed: Seq<char> = if a.components@.len() > 0 {
        "\ninstalled\n"@ + component_rows(a.components@)
    } else {
        Seq::empty()
    };
    let before = top + installed;
    let end = warning_rows(a.warnings@);
    let none = Seq::<char>::empty();
    assert(version_page(a) =~= before + none + end);
    assert(text::surrounded(version_page(a), before, none, end));
    if a.components@.len() == 0 {
        assert(component_rows(a.components@) == none);
        assert(none + component_row(c) =~= component_row(c));
        assert(version_page(b) =~= before + ("\ninstalled\n"@ + component_row(c)) + end);
    } else {
        assert(version_page(b) =~= before + component_row(c) + end);
    }
}

proof fn no_line_feed_in(s: Seq<char>, a: Seq<char>, b: Seq<char>)
    requires
        s == a + b,
        !a.contains('\n'),
        !b.contains('\n'),
    ensures
        !s.contains('\n'),
{
    assert forall|i: int| 0 <= i < s.len() implies s[i] != '\n' by {
        if i < a.len() {
            assert(s[i] == a[i]);
        } else {
            assert(s[i] == b[i - a.len()]);
        }
    }
}

proof fn padding_adds_no_line_feed(s: Seq<char>, width: nat)
    requires
        !s.contains('\n'),
    ensures
        !text::padded(s, width).contains('\n'),
{
    text::padding_adds_spaces_behind(s, width);
    let p = text::padded(s, width);
    assert forall|i: int| 0 <= i < p.len() implies p[i] != '\n' by {
        if i < s.len() {
            assert(p.take(s.len() as int)[i] == p[i]);
            assert(s[i] == p[i]);
        }
    }
}

/// Is every field of a component a line's worth of text?
pub open spec fn on_one_line(c: ComponentReport) -> bool {
    &&& !c.name@.contains('\n')
    &&& c.installed matches Some(v) ==> !v@.contains('\n')
    &&& c.revision matches Some(r) ==> !r@.contains('\n')
}

proof fn a_component_takes_one_line(c: ComponentReport)
    requires
        on_one_line(c),
    ensures
        text::count_of(component_row(c), '\n') == 1,
        component_row(c).last() == '\n',
{
    broadcast use vstd::seq_lib::group_to_multiset_ensures;

    reveal_strlit("  ");
    reveal_strlit(" ");
    reveal_strlit("none");
    reveal_strlit("rev ");
    reveal_strlit("rev unknown");
    reveal_strlit("\n");
    let name = text::padded(c.name@, 12);
    let version = text::padded(or_else(c.installed, "none"@), 8);
    let rev = rev_text(c.revision);
    padding_adds_no_line_feed(c.name@, 12);
    padding_adds_no_line_feed(or_else(c.installed, "none"@), 8);
    if let Some(r) = c.revision {
        no_line_feed_in(rev, "rev "@, r@);
    }
    let a = "  "@ + name;
    let b = a + " "@;
    let d = b + version;
    let e = d + " "@;
    let f = e + rev;
    no_line_feed_in(a, "  "@, name);
    no_line_feed_in(b, a, " "@);
    no_line_feed_in(d, b, version);
    no_line_feed_in(e, d, " "@);
    no_line_feed_in(f, e, rev);
    assert("\n"@ =~= seq!['\n']);
    assert(component_row(c) =~= f.push('\n'));
    text::what_is_absent_is_not_counted(f, '\n');
    assert(f.push('\n').to_multiset() == f.to_multiset().insert('\n'));
}

/// The installed block has as many lines as there are components, below its heading.
pub proof fn one_line_for_each_component(components: Seq<ComponentReport>)
    requires
        forall|i: int| 0 <= i < components.len() ==> on_one_line(#[trigger] components[i]),
    ensures
        text::count_of(component_rows(components), '\n') == components.len(),
        components.len() > 0 ==> component_rows(components).last() == '\n',
    decreases components.len(),
{
    broadcast use vstd::seq_lib::group_to_multiset_ensures;

    if components.len() > 0 {
        let rest = components.drop_last();
        assert forall|i: int| 0 <= i < rest.len() implies on_one_line(#[trigger] rest[i]) by {
            assert(rest[i] == components[i]);
        }
        one_line_for_each_component(rest);
        assert(on_one_line(components[components.len() - 1]));
        a_component_takes_one_line(components.last());
        text::counts_of_two_texts(component_rows(rest), component_row(components.last()), '\n');
    }
}

/// A component's row shows its name, what is installed of it and that release's revision, in
/// columns, and ends the line. What is not installed is none, and a revision nobody knows is
/// unknown.
pub proof fn a_component_row_keeps_its_columns(c: ComponentReport)
    requires
        c.name@.len() <= 12,
        c.installed matches Some(v) ==> v@.len() <= 8,
    ensures
        ({
            let t = component_row(c);
            &&& text::reads(t, 2, c.name@)
            &&& c.installed matches Some(v) ==> text::reads(t, 15, v@)
            &&& c.installed is None ==> text::reads(t, 15, "none"@)
            &&& c.revision matches Some(r) ==> text::reads(t, 24, "rev "@) && text::reads(
                t,
                28,
                r@,
            ) && t.len() == 29 + r@.len()
            &&& c.revision is None ==> text::reads(t, 24, "rev unknown"@) && t.len() == 36
            &&& t.last() == '\n'
        }),
{
    let shown = or_else(c.installed, "none"@);
    reveal_strlit("none");
    a_row_in_columns(c.name@, 12, shown, c.revision);
}

proof fn a_row_in_columns(name: Seq<char>, width: nat, shown: Seq<char>, revision: Option<String>)
    requires
        name.len() <= width,
        shown.len() <= 8,
    ensures
        ({
            let t = "  "@ + text::padded(name, width) + " "@ + text::padded(shown, 8) + " "@
                + rev_text(revision) + "\n"@;
            &&& text::reads(t, 2, name)
            &&& text::reads(t, width + 3int, shown)
            &&& revision matches Some(r) ==> text::reads(t, width + 12int, "rev "@) && text::reads(
                t,
                width + 16int,
                r@,
            ) && t.len() == width + 17 + r@.len()
            &&& revision is None ==> text::reads(t, width + 12int, "rev unknown"@) && t.len()
                == width + 24
            &&& t.last() == '\n'
        }),
{
    reveal_strlit("  ");
    reveal_strlit(" ");
    reveal_strlit("rev ");
    reveal_strlit("rev unknown");
    reveal_strlit("\n");
    text::padding_adds_spaces_behind(name, width);
    text::padding_adds_spaces_behind(shown, 8);
    let a = text::padded(name, width);
    let b = text::padded(shown, 8);
    let t = "  "@ + a + " "@ + b + " "@ + rev_text(revision) + "\n"@;
    assert(t.subrange(2, 2int + name.len()) =~= name) by {
        assert forall|i: int| 0 <= i < name.len() implies t[2 + i] == name[i] by {
            assert(a.take(name.len() as int)[i] == a[i]);
        }
    }
    let at = width + 3int;
    assert(t.subrange(at, at + shown.len()) =~= shown) by {
        assert forall|i: int| 0 <= i < shown.len() implies t[at + i] == shown[i] by {
            assert(b.take(shown.len() as int)[i] == b[i]);
        }
    }
    if let Some(r) = revision {
        assert(t.subrange(width + 12int, width + 16int) =~= "rev "@);
        assert(t.subrange(width + 16int, width + 16int + r@.len()) =~= r@);
    } else {
        assert(t.subrange(width + 12int, width + 23int) =~= "rev unknown"@);
    }
}

/// The row of a daemon that could be asked shows its name, its version and its revision, in
/// columns, and ends the line.
pub proof fn a_service_row_keeps_its_columns(s: ServiceReport)
    requires
        s.error is None,
        s.name@.len() <= 10,
        s.version matches Some(v) ==> v@.len() <= 8,
    ensures
        ({
            let t = service_row(s);
            &&& text::reads(t, 2, s.name@)
            &&& s.version matches Some(v) ==> text::reads(t, 13, v@)
            &&& s.version is None ==> text::reads(t, 13, "unknown"@)
            &&& s.revision matches Some(r) ==> text::reads(t, 22, "rev "@) && text::reads(
                t,
                26,
                r@,
            ) && t.len() == 27 + r@.len()
            &&& s.revision is None ==> text::reads(t, 22, "rev unknown"@) && t.len() == 34
            &&& t.last() == '\n'
        }),
{
    let shown = or_else(s.version, "unknown"@);
    reveal_strlit("unknown");
    a_row_in_columns(s.name@, 10, shown, s.revision);
}

/// The row of a daemon that could not be asked says so behind its name, with the first line of
/// the reason and no more of it, whatever else is known of the daemon.
pub proof fn an_unasked_daemon_takes_one_line(
    s: ServiceReport,
    why: Seq<char>,
    line: Seq<char>,
    rest: Seq<char>,
)
    requires
        s.error is Some,
        s.error->0@ == why,
        !line.contains('\n'),
        line.len() > 0,
        line.last() != '\r',
        why == line || why == line + seq!['\n'] + rest,
    ensures
        service_row(s) == "  "@ + text::padded(s.name@, 10) + " unavailable — "@ + line + "\n"@,
{
    text::the_first_line_ends_where_the_line_does(line, rest);
}

/// A reason that says nothing is said to be unavailable.
pub proof fn an_empty_reason_is_not_left_empty()
    ensures
        brief(Seq::empty()) == "unavailable"@,
{
}

/// The revision of a component is that of its first active release, whatever is listed before or
/// behind it, and unknown where none is active.
pub proof fn the_active_release_is_the_one_reported(
    releases: Seq<InstalledRelease>,
    from: int,
    i: int,
)
    requires
        0 <= from <= i <= releases.len(),
        forall|j: int| from <= j < i ==> !(#[trigger] releases[j]).active,
    ensures
        i < releases.len() && releases[i].active ==> active_revision(releases, from)
            == releases[i].source_revision,
        i == releases.len() ==> active_revision(releases, from) is None,
    decreases i - from,
{
    if from < i {
        assert(!releases[from].active);
        the_active_release_is_the_one_reported(releases, from + 1, i);
    }
}

/// The installed version of a component is that of the first one of its name, and the running
/// version of a daemon is that of the first one of its name; neither is known where none has it.
pub proof fn the_first_of_a_name_is_looked_up(
    components: Seq<ComponentReport>,
    services: Seq<ServiceReport>,
    name: Seq<char>,
    from: int,
    i: int,
)
    requires
        0 <= from <= i,
    ensures
        (i < components.len() && components[i].name@ == name && forall|j: int|
            from <= j < i ==> (#[trigger] components[j]).name@ != name) ==> installed_version(
            components,
            name,
            from,
        ) == parsed(net::text_view(components[i].installed)),
        (i == components.len() && forall|j: int|
            from <= j < i ==> (#[trigger] components[j]).name@ != name) ==> installed_version(
            components,
            name,
            from,
        ) is None,
        (i < services.len() && services[i].name@ == name && forall|j: int|
            from <= j < i ==> (#[trigger] services[j]).name@ != name) ==> running_version(
            services,
            name,
            from,
        ) == parsed(net::text_view(services[i].version)),
        (i == services.len() && forall|j: int|
            from <= j < i ==> (#[trigger] services[j]).name@ != name) ==> running_version(
            services,
            name,
            from,
        ) is None,
    decreases i - from,
{
    if from < i {
        the_first_of_a_name_is_looked_up(components, services, name, from + 1, i);
    }
}

/// A disagreement names the daemon, what it runs and what is installed, each in its place, and
/// another version in one of the two changes nothing else.
pub proof fn a_mismatch_tells_running_from_installed(
    service: Seq<char>,
    running: VersionView,
    installed: VersionView,
    other: VersionView,
)
    ensures
        text::differ_behind(
            mismatch_text(service, running, installed),
            mismatch_text(service, other, installed),
            service + " is running "@,
            version::version_text(running),
            version::version_text(other),
        ),
        text::differ_behind(
            mismatch_text(service, running, installed),
            mismatch_text(service, running, other),
            " but the installed daemon release is "@,
            version::version_text(installed),
            version::version_text(other),
        ),
        service.is_prefix_of(mismatch_text(service, running, installed)),
{
    let none = Seq::<char>::empty();
    let (r, i, o) = (
        version::version_text(running),
        version::version_text(installed),
        version::version_text(other),
    );
    let (a, b) = (" is running "@, " but the installed daemon release is "@);
    let t = mismatch_text(service, running, installed);
    text::a_change_behind_a_label(none, service + a, r, o, b + i);
    assert(t =~= none + (service + a) + r + (b + i));
    assert(mismatch_text(service, other, installed) =~= none + (service + a) + o + (b + i));
    text::a_change_behind_a_label(service + a + r, b, i, o, none);
    assert(t =~= service + a + r + b + i + none);
    assert(mismatch_text(service, running, other) =~= service + a + r + b + o + none);
    assert(t.subrange(0, service.len() as int) =~= service);
}

/// Every daemon known to run another release than the installed one is warned about, `updaterd`,
/// then `robotd`, then `configd`, and then every one that could not be asked; there is a warning
/// for each of these and no other.
pub proof fn every_lag_is_warned_of(
    services: Seq<ServiceReport>,
    components: Seq<ComponentReport>,
    updaterd: Option<VersionView>,
)
    ensures
        ({
            let installed = installed_version(components, "daemon"@, 0);
            let robotd = running_version(services, "robotd"@, 0);
            let configd = running_version(services, "configd"@, 0);
            let u = updaterd is Some && installed is Some && updaterd != installed;
            let r = robotd is Some && installed is Some && robotd != installed;
            let c = configd is Some && installed is Some && configd != installed;
            let n: int = if u { 1 } else { 0 };
            let m: int = n + if r { 1int } else { 0 };
            let k: int = m + if c { 1int } else { 0 };
            let all = warnings_of(services, components, updaterd);
            &&& all.skip(k) == unasked(services)
            &&& all.len() == k + unasked(services).len()
            &&& u ==> all[0] == mismatch_text("updaterd"@, updaterd->0, installed->0)
                + updaterd_advice()
            &&& r ==> all[n] == mismatch_text("robotd"@, robotd->0, installed->0) + robotd_advice()
            &&& c ==> all[m] == mismatch_text("configd"@, configd->0, installed->0)
                + configd_advice()
        }),
{
    let installed = installed_version(components, "daemon"@, 0);
    let robotd = running_version(services, "robotd"@, 0);
    let configd = running_version(services, "configd"@, 0);
    let u = lag("updaterd"@, updaterd, installed, updaterd_advice());
    let r = lag("robotd"@, robotd, installed, robotd_advice());
    let c = lag("configd"@, configd, installed, configd_advice());
    let all = warnings_of(services, components, updaterd);
    assert(all == u + r + c + unasked(services));
    assert(all.skip((u.len() + r.len() + c.len()) as int) =~= unasked(services));
}

/// The daemons that could not be asked are listed in order, one warning each with its own reason.
pub proof fn one_more_daemon_that_could_not_be_asked(services: Seq<ServiceReport>, s: ServiceReport)
    ensures
        s.error is None ==> unasked(services.push(s)) == unasked(services),
        s.error matches Some(why) ==> unasked(services.push(s)) == unasked(services).push(
            s.name@ + " could not be asked what it is running: "@ + why@,
        ),
{
    assert(services.push(s).drop_last() == services);
}

/// What is worth saying about each daemon that lags differs: no two diagnoses are the same, and
/// only that of `updaterd` calls the lag expected.
pub proof fn the_diagnoses_differ()
    ensures
        configd_advice() != robotd_advice(),
        configd_advice() != updaterd_advice(),
        text::reads(updaterd_advice(), 4, "Expected right after an update"@),
        text::reads(robotd_advice(), 4, "robotd is in on_apply's restart set"@),
        text::reads(configd_advice(), 4, "configd is in on_apply's restart set"@),
{
    reveal_strlit(
        ".\n  Expected right after an update — updaterd never restarts itself, so it keeps\n  running the old binary until the next reboot. If this survives a reboot, the\n  new release is not being launched: check the `current` symlink and the unit's\n  ExecStart path.",
    );
    reveal_strlit(
        ".\n  robotd is in on_apply's restart set, so it should already be on the installed\n  release: either the restart did not happen, or it failed and systemd restarted\n  the old binary. Check `systemctl status robotd` and the update log.",
    );
    reveal_strlit(
        ".\n  configd is in on_apply's restart set, so it should already be on the installed\n  release. Check `systemctl status configd` and the update log.",
    );
    reveal_strlit("Expected right after an update");
    reveal_strlit("robotd is in on_apply's restart set");
    reveal_strlit("configd is in on_apply's restart set");
    assert(updaterd_advice().subrange(4, 34) =~= "Expected right after an update"@);
    assert(robotd_advice().subrange(4, 39) =~= "robotd is in on_apply's restart set"@);
    assert(configd_advice().subrange(4, 40) =~= "configd is in on_apply's restart set"@);
    assert(configd_advice()[4] == 'c');
    assert(robotd_advice()[4] == 'r');
    assert(updaterd_advice()[4] == 'E');
}

/// What is known is written down, and what is not is written as what stands in for it.
pub proof fn what_is_known_is_written(v: Version, s: String, default: Seq<char>, rev: String)
    ensures
        written(Some(v)) == Some(version::version_text(v@)),
        written(None) is None,
        or_else(Some(s), default) == s@,
        or_else(None, default) == default,
        rev_text(Some(rev)) == "rev "@ + rev@,
        rev_text(None) == "rev unknown"@,
        parsed(Some(s@)) == version::semver_parsed(s@),
        parsed(None) is None,
{
}

/// The report on a daemon has a version or an error and never both: what it answered, where it
/// answered, and why it could not be asked, where it could not.
pub proof fn a_daemon_is_reported_as_it_answered(
    r: ServiceReport,
    name: Seq<char>,
    hello: HelloResult,
    failure: Failure,
)
    ensures
        reports_on(r, name, Ok(hello)) ==> {
            &&& r.name@ == name
            &&& r.error is None
            &&& hello.daemon_version matches Some(v) ==> r.version is Some && r.version->0@
                == version::version_text(v@)
            &&& hello.daemon_version is None ==> r.version is None
            &&& r.revision == hello.revision
        },
        reports_on(r, name, Err(failure)) ==> {
            &&& r.name@ == name
            &&& r.error == Some(failure.message)
            &&& r.version is None
            &&& r.revision is None
        },
{
}

} // verus!
