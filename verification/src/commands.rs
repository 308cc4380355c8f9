//! The command line: which call each command makes, and how its answer is shown.
//!
//! Nothing here asks a question, and every outcome has an exit code of its own.
use vstd::prelude::*;

use crate::client::Failure;
use crate::exit;
use crate::proto::{
    ApplyOptions, ApplyParams, Call, ComponentId, ComponentParams, ComponentStatus, ConnectFailure,
    ConnectResult, ForgetResult, HealthResult, LogParams, NetConnectParams, NetForgetParams,
    NetScanResult, NetState, NetStatusResult, Network, PairingPinResult, PinParams, RebootResult,
    Security, SelectParams, SetNameParams, SetNameResult, SetPairingPinParams, SystemInfoResult,
    Target,
};
use crate::report;
use crate::text;
use crate::version;
use crate::version::Version;

verus! {

// ── update ───────────────────────────────────────────────────────────────────

#[allow(inconsistent_fields)]
#[derive(Debug)]
pub enum UpdateCommand {
    /// Report whether an update is available, for one component or for all.
    Check { component: Option<String> },
    /// Install the latest release, an exact version, or what a branch last built.
    Apply {
        component: String,
        version: Option<Version>,
        git_ref: Option<String>,
        dry_run: bool,
        interrupt_sessions: bool,
    },
    /// Return to the previously installed release.
    Rollback { component: String },
    /// Return to the known-good release.
    ResetToGolden { component: String },
    /// Activate an installed release without downloading.
    Select { component: String, version: Version },
    /// Refuse versions other than this one, or none.
    Pin { component: String, version: Option<Version> },
    /// State of each component.
    Status { json: bool },
    /// Recent attempts and outcomes.
    Log { limit: usize },
    /// Follow progress until interrupted.
    Watch,
}

/// What an apply moves to: the version if one was named, else the branch, else the latest.
pub open spec fn target_for(version: Option<Version>, git_ref: Option<String>) -> Target {
    match (version, git_ref) {
        (Some(v), _) => Target::Exact(v),
        (None, Some(r)) => Target::Ref(r),
        (None, None) => Target::Latest,
    }
}

/// Does `call` do what `command` asks?
pub open spec fn update_does(command: UpdateCommand, call: Call) -> bool {
    match command {
        UpdateCommand::Check { component } => match component {
            Some(name) => call == Call::Check(
                ComponentParams { component: ComponentId(name) },
            ),
            None => call is Status,
        },
        UpdateCommand::Apply { component, version, git_ref, dry_run, interrupt_sessions } => call
            == Call::Apply(
            ApplyParams {
                component: ComponentId(component),
                target: target_for(version, git_ref),
                options: ApplyOptions { dry_run, interrupt_sessions },
            },
        ),
        UpdateCommand::Rollback { component } => call == Call::Rollback(
            ComponentParams { component: ComponentId(component) },
        ),
        UpdateCommand::ResetToGolden { component } => call == Call::ResetToGolden(
            ComponentParams { component: ComponentId(component) },
        ),
        UpdateCommand::Select { component, version } => call == Call::Select(
            SelectParams { component: ComponentId(component), version },
        ),
        UpdateCommand::Pin { component, version } => call == Call::Pin(
            PinParams { component: ComponentId(component), version },
        ),
        UpdateCommand::Status { .. } => call is Status,
        UpdateCommand::Log { limit } => call == Call::Log(LogParams { limit }),
        UpdateCommand::Watch => call is Subscribe,
    }
}

/// The call a command makes. Following progress subscribes, and never gets a single answer;
/// checking everything asks first what there is to check.
pub fn update_call(command: &UpdateCommand) -> (r: Call)
    ensures
        update_does(*command, r),
{
    match command {
        UpdateCommand::Check { component } => match component {
            Some(name) => Call::Check(ComponentParams { component: ComponentId(name.clone()) }),
            None => Call::Status,
        },
        UpdateCommand::Apply { component, version, git_ref, dry_run, interrupt_sessions } => {
            let target = match (version, git_ref) {
                (Some(v), _) => Target::Exact(v.clone()),
                (None, Some(r)) => Target::Ref(r.clone()),
                (None, None) => Target::Latest,
            };
            Call::Apply(
                ApplyParams {
                    component: ComponentId(component.clone()),
                    target,
                    options: ApplyOptions {
                        dry_run: *dry_run,
                        interrupt_sessions: *interrupt_sessions,
                    },
                },
            )
        },
        UpdateCommand::Rollback { component } => Call::Rollback(
            ComponentParams { component: ComponentId(component.clone()) },
        ),
        UpdateCommand::ResetToGolden { component } => Call::ResetToGolden(
            ComponentParams { component: ComponentId(component.clone()) },
        ),
        UpdateCommand::Select { component, version } => Call::Select(
            SelectParams { component: ComponentId(component.clone()), version: version.clone() },
        ),
        UpdateCommand::Pin { component, version } => {
            let version = match version {
                Some(v) => Some(v.clone()),
                None => None,
            };
            Call::Pin(PinParams { component: ComponentId(component.clone()), version })
        },
        UpdateCommand::Status { .. } => Call::Status,
        UpdateCommand::Log { limit } => Call::Log(LogParams { limit: *limit }),
        UpdateCommand::Watch => Call::Subscribe,
    }
}

/// The calls that check every component there is, in the order they were listed.
pub fn check_all(statuses: &Vec<ComponentStatus>) -> (r: Vec<Call>)
    ensures
        r@.len() == statuses@.len(),
        forall|i: int|
            0 <= i < r@.len() ==> #[trigger] r@[i] == Call::Check(
                ComponentParams { component: statuses@[i].component },
            ),
{
    let mut out: Vec<Call> = Vec::new();
    let mut i: usize = 0;
    while i < statuses.len()
        invariant
            i <= statuses@.len(),
            out@.len() == i,
            forall|j: int|
                0 <= j < i ==> #[trigger] out@[j] == Call::Check(
                    ComponentParams { component: statuses@[j].component },
                ),
        decreases statuses@.len() - i,
    {
        out.push(Call::Check(ComponentParams { component: statuses[i].component.clone() }));
        i = i + 1;
    }
    out
}

/// How a result is shown.
#[derive(Debug, Clone, Copy, PartialEq, Eq, Structural)]
pub enum Shown {
    /// As the JSON it is.
    Json,
    /// One block for each component.
    Statuses,
    /// One line for each attempt.
    Attempts,
}

/// How the answer to a command is shown. Whatever does not decode is printed as it came, so a
/// diagnostic command never prints nothing.
pub fn shown(command: &UpdateCommand, decodes: bool) -> (r: Shown)
    ensures
        r == match *command {
            UpdateCommand::Status { json } if !json && decodes => Shown::Statuses,
            UpdateCommand::Log { .. } if decodes => Shown::Attempts,
            _ => Shown::Json,
        },
{
    match command {
        UpdateCommand::Status { json } => if !*json && decodes {
            Shown::Statuses
        } else {
            Shown::Json
        },
        UpdateCommand::Log { .. } => if decodes {
            Shown::Attempts
        } else {
            Shown::Json
        },
        _ => Shown::Json,
    }
}

/// Is the component healthy, as far as anybody probed?
pub open spec fn healthy_text(healthy: Option<bool>) -> Seq<char> {
    match healthy {
        Some(true) => "healthy"@,
        Some(false) => "UNHEALTHY"@,
        None => "no probe"@,
    }
}

/// The lines about one component. `attempt` is its last attempt, as compact JSON.
pub open spec fn status_block(status: ComponentStatus, attempt: Option<Seq<char>>) -> Seq<char> {
    status.component@ + ": "@ + match report::written(status.installed) {
        Some(v) => v,
        None => "none"@,
    } + " ("@ + healthy_text(status.healthy) + ")\n"@ + match report::written(status.pinned) {
        Some(v) => "  pinned to "@ + v + "\n"@,
        None => Seq::empty(),
    } + match attempt {
        Some(json) => "  last attempt: "@ + json + "\n"@,
        None => Seq::empty(),
    }
}

/// The lines about one component. `attempt` is its last attempt, as compact JSON.
pub fn render_status(status: &ComponentStatus, attempt: Option<&str>) -> (r: String)
    ensures
        r@ == status_block(
            *status,
            match attempt {
                Some(s) => Some(s@),
                None => None,
            },
        ),
{
    let mut out = status.component.as_str().to_owned();
    out.append(": ");
    let installed = match &status.installed {
        Some(v) => v.to_string(),
        None => "none".to_owned(),
    };
    out.append(installed.as_str());
    out.append(" (");
    out.append(
        match status.healthy {
            Some(true) => "healthy",
            Some(false) => "UNHEALTHY",
            None => "no probe",
        },
    );
    out.append(")\n");
    let pinned = match &status.pinned {
        Some(v) => "  pinned to ".to_owned().concat(v.to_string().as_str()).concat("\n"),
        None => String::new(),
    };
    out.append(pinned.as_str());
    let last = match attempt {
        Some(json) => "  last attempt: ".to_owned().concat(json).concat("\n"),
        None => String::new(),
    };
    out.append(last.as_str());
    out
}

// ── health ───────────────────────────────────────────────────────────────────

/// What a health answer says. A degraded robot is one whose release is fine and whose board
/// cannot move.
pub open spec fn health_text(health: HealthResult, degraded: bool) -> Seq<char> {
    if health.healthy {
        "healthy"@
    } else {
        (if degraded {
            "degraded"@
        } else {
            "unhealthy"@
        }) + ": "@ + report::or_else(health.reason, "no reason given"@)
    }
}

/// What a health answer says.
pub fn render_health(health: &HealthResult, degraded: bool) -> (r: String)
    ensures
        r@ == health_text(*health, degraded),
{
    if health.healthy {
        "healthy".to_owned()
    } else {
        let mut out = if degraded {
            "degraded"
        } else {
            "unhealthy"
        }.to_owned();
        out.append(": ");
        match &health.reason {
            Some(reason) => {
                out.append(reason.as_str());
            },
            None => {
                out.append("no reason given");
            },
        }
        out
    }
}

/// The verdict as an exit code. An unhealthy robot answered correctly and the answer was no,
/// which is a refusal and not a malfunction; the reason is on stdout already.
pub fn health_verdict(health: &HealthResult) -> (r: Result<(), Failure>)
    ensures
        r is Ok <==> health.healthy,
        r matches Err(f) ==> f.code == exit::REFUSED && f.message@.len() == 0,
{
    if health.healthy {
        Ok(())
    } else {
        Err(Failure::silent(exit::REFUSED))
    }
}

/// A health answer nobody can read.
pub fn unreadable_health(why: &str) -> (r: Failure)
    ensures
        r.code == exit::FAILED,
        r.message@ == "robotd answered robot.health with something unexpected: "@ + why@,
{
    Failure::new(
        exit::FAILED,
        "robotd answered robot.health with something unexpected: ".to_owned().concat(why),
    )
}

// ── net ──────────────────────────────────────────────────────────────────────

#[derive(Debug)]
pub enum NetCommand {
    Status { json: bool },
    Scan { json: bool },
    Connect { ssid: String, psk: Option<String>, psk_stdin: bool, json: bool },
    Forget { ssid: String, json: bool },
}

/// The call a command makes and whether its answer is wanted as JSON. A passphrase typed on
/// stdin takes the place of one given as an argument.
pub fn net_call(command: NetCommand, typed: Option<String>) -> (r: (Call, bool))
    ensures
        match command {
            NetCommand::Status { json } => r == (Call::NetStatus, json),
            NetCommand::Scan { json } => r == (Call::NetScan, json),
            NetCommand::Connect { ssid, psk, psk_stdin, json } => r == (
                Call::NetConnect(
                    NetConnectParams {
                        ssid,
                        psk: if psk_stdin {
                            typed
                        } else {
                            psk
                        },
                    },
                ),
                json,
            ),
            NetCommand::Forget { ssid, json } => r == (
                Call::NetForget(NetForgetParams { ssid }),
                json,
            ),
        },
        r.0.mutates() <==> command is Connect || command is Forget,
{
    match command {
        NetCommand::Status { json } => (Call::NetStatus, json),
        NetCommand::Scan { json } => (Call::NetScan, json),
        NetCommand::Connect { ssid, psk, psk_stdin, json } => {
            let psk = if psk_stdin {
                typed
            } else {
                psk
            };
            (Call::NetConnect(NetConnectParams { ssid, psk }), json)
        },
        NetCommand::Forget { ssid, json } => (Call::NetForget(NetForgetParams { ssid }), json),
    }
}

/// A passphrase as it was typed, or why it could not be read. Only the line ending goes: a
/// passphrase may end in a space.
pub fn secret(line: Result<&str, &str>) -> (r: Result<String, Failure>)
    ensures
        match line {
            Ok(typed) => r matches Ok(s) && s@ == text::without_line_end(typed@),
            Err(why) => r matches Err(f) && f.code == exit::USAGE && f.message@
                == "cannot read the passphrase: "@ + why@,
        },
{
    match line {
        Ok(typed) => Ok(text::strip_line_end(typed)),
        Err(why) => Err(
            Failure::new(exit::USAGE, "cannot read the passphrase: ".to_owned().concat(why)),
        ),
    }
}

pub open spec fn net_state_name(s: NetState) -> Seq<char> {
    match s {
        NetState::Connected => "Connected"@,
        NetState::Disconnected => "Disconnected"@,
        NetState::Unavailable => "Unavailable"@,
    }
}

/// A labelled line for a value that is there.
pub open spec fn row_if(label: Seq<char>, value: Option<String>, after: Seq<char>) -> Seq<char> {
    match value {
        Some(v) => label + v@ + after + "\n"@,
        None => Seq::empty(),
    }
}

/// The signal in brackets, if it is known.
pub open spec fn signal_note(signal: Option<u8>) -> Seq<char> {
    match signal {
        Some(s) => "  ("@ + text::dec(s as nat) + "%)"@,
        None => Seq::empty(),
    }
}

/// The whole status before its end is trimmed.
pub open spec fn net_status_page(status: NetStatusResult) -> Seq<char> {
    "state   "@ + net_state_name(status.state) + "\n"@ + row_if(
        "ssid    "@,
        status.ssid,
        signal_note(status.signal),
    ) + row_if("ipv4    "@, status.ip4, Seq::empty()) + row_if(
        "ipv6    "@,
        status.ip6,
        Seq::empty(),
    ) + row_if("iface   "@, status.iface, "  "@ + report::or_else(status.mac, "unknown"@)) + (
    if status.state == NetState::Unavailable {
        "\nNetworkManager manages no wifi device. If this board still runs netplan, \nrun scripts/migrate-network.sh first."@
    } else {
        Seq::empty()
    })
}

fn row(label: &str, value: &Option<String>, after: &str) -> (r: String)
    ensures
        r@ == row_if(label@, *value, after@),
{
    match value {
        Some(v) => {
            let mut out = label.to_owned();
            out.append(v.as_str());
            out.append(after);
            out.append("\n");
            out
        },
        None => String::new(),
    }
}

/// The network, for a person to read.
pub fn render_net_status(status: &NetStatusResult) -> (r: String)
    ensures
        r@ == text::trimmed_end(net_status_page(*status)),
{
    let mut out = "state   ".to_owned();
    out.append(
        match status.state {
            NetState::Connected => "Connected",
            NetState::Disconnected => "Disconnected",
            NetState::Unavailable => "Unavailable",
        },
    );
    out.append("\n");
    let signal = match status.signal {
        Some(s) => "  (".to_owned().concat(text::decimal(s as u64).as_str()).concat("%)"),
        None => String::new(),
    };
    out.append(row("ssid    ", &status.ssid, signal.as_str()).as_str());
    let nothing = String::new();
    out.append(row("ipv4    ", &status.ip4, nothing.as_str()).as_str());
    out.append(row("ipv6    ", &status.ip6, nothing.as_str()).as_str());
    let mut mac = "  ".to_owned();
    match &status.mac {
        Some(m) => {
            mac.append(m.as_str());
        },
        None => {
            mac.append("unknown");
        },
    }
    out.append(row("iface   ", &status.iface, mac.as_str()).as_str());
    // The one state worth explaining: it is a provisioning mistake, not a network problem.
    let advice = if status.state == NetState::Unavailable {
        "\nNetworkManager manages no wifi device. If this board still runs netplan, \nrun scripts/migrate-network.sh first.".to_owned()
    } else {
        String::new()
    };
    out.append(advice.as_str());
    text::trim_end(out.as_str())
}

pub open spec fn security_name(s: Security) -> Seq<char> {
    match s {
        Security::Open => "Open"@,
        Security::WpaPsk => "WpaPsk"@,
        Security::Enterprise => "Enterprise"@,
    }
}

/// The row of one network.
pub open spec fn network_row(n: Network) -> Seq<char> {
    text::right_aligned(text::dec(n.signal as nat), 3) + "%  "@ + text::padded(
        security_name(n.security),
        12,
    ) + " "@ + n.ssid@ + (if n.saved {
        " (saved)"@
    } else {
        Seq::empty()
    }) + "\n"@
}

pub open spec fn network_rows(networks: Seq<Network>) -> Seq<char>
    decreases networks.len(),
{
    if networks.len() == 0 {
        Seq::empty()
    } else {
        network_rows(networks.drop_last()) + network_row(networks.last())
    }
}

fn render_network(n: &Network) -> (r: String)
    ensures
        r@ == network_row(*n),
{
    let mut out = text::align_right(text::decimal(n.signal as u64).as_str(), 3);
    out.append("%  ");
    let security = match n.security {
        Security::Open => "Open",
        Security::WpaPsk => "WpaPsk",
        Security::Enterprise => "Enterprise",
    };
    out.append(text::pad(security, 12).as_str());
    out.append(" ");
    out.append(n.ssid.as_str());
    let saved = if n.saved {
        " (saved)".to_owned()
    } else {
        String::new()
    };
    out.append(saved.as_str());
    out.append("\n");
    out
}

/// The networks in range, one row each.
pub fn render_scan(scan: &NetScanResult) -> (r: String)
    ensures
        r@ == if scan.networks@.len() == 0 {
            "no networks in range"@
        } else {
            text::trimmed_end(network_rows(scan.networks@))
        },
{
    if scan.networks.len() == 0 {
        return "no networks in range".to_owned();
    }
    let mut out = String::new();
    let mut i: usize = 0;
    while i < scan.networks.len()
        invariant
            i <= scan.networks@.len(),
            out@ == network_rows(scan.networks@.take(i as int)),
        decreases scan.networks@.len() - i,
    {
        assert(scan.networks@.take(i + 1).drop_last() == scan.networks@.take(i as int));
        assert(scan.networks@.take(i + 1).last() == scan.networks@[i as int]);
        out.append(render_network(&scan.networks[i]).as_str());
        i = i + 1;
    }
    assert(scan.networks@.take(i as int) == scan.networks@);
    text::trim_end(out.as_str())
}

/// What a failed join means.
pub open spec fn advice(reason: ConnectFailure) -> Seq<char> {
    match reason {
        ConnectFailure::BadKey => "the passphrase was rejected"@,
        ConnectFailure::NotFound => "that network is not in range"@,
        ConnectFailure::Timeout => "it associated but never finished; try again"@,
        ConnectFailure::Unsupported => "this network needs something we cannot do"@,
        ConnectFailure::Other => "the join failed"@,
    }
}

/// What a join prints, or the failure it is. A join that was asked for and refused is told
/// apart from one that could not be asked for.
pub fn report_connect(result: ConnectResult) -> (r: Result<String, Failure>)
    ensures
        match result {
            ConnectResult::Connected { ssid, ip4 } => r matches Ok(page) && page@ == "connected to "@
                + ssid@ + "\nipv4      "@ + report::or_else(ip4, "pending (DHCP)"@),
            ConnectResult::Failed { reason, detail } => r matches Err(f) && f.code == exit::REFUSED
                && f.message@ == advice(reason) + match detail {
                Some(d) => " ("@ + d@ + ")"@,
                None => Seq::empty(),
            },
        },
        r is Ok <==> result is Connected,
{
    match result {
        ConnectResult::Connected { ssid, ip4 } => {
            let mut out = "connected to ".to_owned();
            out.append(ssid.as_str());
            out.append("\nipv4      ");
            match &ip4 {
                Some(ip) => {
                    out.append(ip.as_str());
                },
                None => {
                    out.append("pending (DHCP)");
                },
            }
            Ok(out)
        },
        ConnectResult::Failed { reason, detail } => {
            let mut out = match reason {
                ConnectFailure::BadKey => "the passphrase was rejected",
                ConnectFailure::NotFound => "that network is not in range",
                ConnectFailure::Timeout => "it associated but never finished; try again",
                ConnectFailure::Unsupported => "this network needs something we cannot do",
                ConnectFailure::Other => "the join failed",
            }.to_owned();
            let detail = match &detail {
                Some(d) => " (".to_owned().concat(d.as_str()).concat(")"),
                None => String::new(),
            };
            out.append(detail.as_str());
            Err(Failure::new(exit::REFUSED, out))
        },
    }
}

/// What forgetting prints. A network that was not stored is no error: a client may ask twice.
pub fn render_forget(ssid: &str, result: ForgetResult) -> (r: String)
    ensures
        r@ == if result.removed {
            "forgot "@ + ssid@
        } else {
            ssid@ + " was not stored"@
        },
{
    if result.removed {
        "forgot ".to_owned().concat(ssid)
    } else {
        ssid.to_owned().concat(" was not stored")
    }
}

// ── system ───────────────────────────────────────────────────────────────────

#[derive(Debug)]
pub enum SystemCommand {
    Info { json: bool },
    SetName { name: String, json: bool },
    Pin { json: bool },
    SetPin { pin: String, json: bool },
    Reboot { yes: bool, json: bool },
}

/// The call a command makes and whether its answer is wanted as JSON. A reboot nobody confirmed
/// is refused before anything is connected to.
pub fn system_call(command: SystemCommand) -> (r: Result<(Call, bool), Failure>)
    ensures
        match command {
            SystemCommand::Info { json } => r == Ok::<_, Failure>((Call::SystemInfo, json)),
            SystemCommand::SetName { name, json } => r == Ok::<_, Failure>(
                (Call::SystemSetName(SetNameParams { name }), json),
            ),
            SystemCommand::Pin { json } => r == Ok::<_, Failure>((Call::SystemPairingPin, json)),
            SystemCommand::SetPin { pin, json } => r == Ok::<_, Failure>(
                (Call::SystemSetPairingPin(SetPairingPinParams { pin }), json),
            ),
            SystemCommand::Reboot { yes, json } => if yes {
                r == Ok::<_, Failure>((Call::SystemReboot, json))
            } else {
                r matches Err(f) && f.code == exit::USAGE && f.message@
                    == "this reboots the robot. Re-run with --yes if that is what you want."@
            },
        },
        r is Err <==> (command matches SystemCommand::Reboot { yes, .. } && !yes),
        r matches Ok((call, _)) ==> (call.mutates() <==> command is SetName || command is SetPin
            || command is Reboot),
{
    match command {
        SystemCommand::Info { json } => Ok((Call::SystemInfo, json)),
        SystemCommand::SetName { name, json } => Ok(
            (Call::SystemSetName(SetNameParams { name }), json),
        ),
        SystemCommand::Pin { json } => Ok((Call::SystemPairingPin, json)),
        SystemCommand::SetPin { pin, json } => Ok(
            (Call::SystemSetPairingPin(SetPairingPinParams { pin }), json),
        ),
        SystemCommand::Reboot { yes, json } => if yes {
            Ok((Call::SystemReboot, json))
        } else {
            Err(
                Failure::new(
                    exit::USAGE,
                    "this reboots the robot. Re-run with --yes if that is what you want.".to_owned(),
                ),
            )
        },
    }
}

/// Days, hours and minutes, from the largest that is not zero down.
pub open spec fn uptime_text(seconds: u64) -> Seq<char> {
    let days = seconds as nat / 86400;
    let hours = (seconds as nat % 86400) / 3600;
    let minutes = (seconds as nat % 3600) / 60;
    if days > 0 {
        text::dec(days) + "d "@ + text::dec(hours) + "h "@ + text::dec(minutes) + "m"@
    } else if hours > 0 {
        text::dec(hours) + "h "@ + text::dec(minutes) + "m"@
    } else {
        text::dec(minutes) + "m"@
    }
}

pub fn format_uptime(seconds: u64) -> (r: String)
    ensures
        r@ == uptime_text(seconds),
{
    let days: u64 = seconds / 86400;
    let hours: u64 = (seconds % 86400) / 3600;
    let minutes: u64 = (seconds % 3600) / 60;
    if days > 0 {
        let mut out = text::decimal(days);
        out.append("d ");
        out.append(text::decimal(hours).as_str());
        out.append("h ");
        out.append(text::decimal(minutes).as_str());
        out.append("m");
        out
    } else if hours > 0 {
        let mut out = text::decimal(hours);
        out.append("h ");
        out.append(text::decimal(minutes).as_str());
        out.append("m");
        out
    } else {
        text::decimal(minutes).concat("m")
    }
}

/// Days, hours and minutes account for all of an uptime but the seconds of a minute begun.
pub proof fn an_uptime_is_its_days_hours_and_minutes(seconds: u64)
    ensures
        ({
            let days = seconds as nat / 86400;
            let hours = (seconds as nat % 86400) / 3600;
            let minutes = (seconds as nat % 3600) / 60;
            &&& hours < 24
            &&& minutes < 60
            &&& seconds - 60 < 86400 * days + 3600 * hours + 60 * minutes <= seconds
        }),
{
    let s = seconds as int;
    let day = s % 86400;
    vstd::arithmetic::div_mod::lemma_mod_mod(s, 3600, 24);
    assert(s % 3600 == day % 3600);
    assert(s == 86400 * (s / 86400) + day);
    assert(day == 3600 * (day / 3600) + day % 3600);
    assert(day % 3600 == 60 * ((day % 3600) / 60) + (day % 3600) % 60);
}

pub fn render_info(info: &SystemInfoResult) -> (r: String)
    ensures
        r@ == "name    "@ + info.name@ + "\nserial  "@ + report::or_else(
            info.serial,
            "not provisioned"@,
        ) + "\nuptime  "@ + uptime_text(info.uptime_seconds),
{
    let mut out = "name    ".to_owned();
    out.append(info.name.as_str());
    out.append("\nserial  ");
    match &info.serial {
        Some(s) => {
            out.append(s.as_str());
        },
        None => {
            out.append("not provisioned");
        },
    }
    out.append("\nuptime  ");
    out.append(format_uptime(info.uptime_seconds).as_str());
    out
}

/// The name the robot stored, which may not be the one that was asked for.
pub fn render_renamed(renamed: &SetNameResult) -> (r: String)
    ensures
        r@ == "name    "@ + renamed.name@
            + "\nBluetooth advertises the new name after:  systemctl restart btd"@,
{
    let mut out = "name    ".to_owned();
    out.append(renamed.name.as_str());
    out.append("\nBluetooth advertises the new name after:  systemctl restart btd");
    out
}

/// The pairing PIN, with a warning where it is the one everybody knows.
pub fn render_pin(pin: &PairingPinResult) -> (r: String)
    ensures
        r@ == "pairing PIN  "@ + pin.pin@ + (if pin.is_default {
            "\nThis is the factory default, so it authorises nothing — anyone in range \nknows it. Set a per-robot PIN:  sudo robotctl system set-pin <6 digits>"@
        } else {
            Seq::empty()
        }),
{
    let mut out = "pairing PIN  ".to_owned();
    out.append(pin.pin.as_str());
    let warning = if pin.is_default {
        "\nThis is the factory default, so it authorises nothing — anyone in range \nknows it. Set a per-robot PIN:  sudo robotctl system set-pin <6 digits>".to_owned()
    } else {
        String::new()
    };
    out.append(warning.as_str());
    out
}

pub fn render_reboot(reboot: RebootResult) -> (r: String)
    ensures
        r@ == "rebooting in "@ + text::dec(reboot.in_seconds as nat) + "s"@,
{
    let mut out = "rebooting in ".to_owned();
    out.append(text::decimal(reboot.in_seconds).as_str());
    out.append("s");
    out
}

// ── what the commands keep ───────────────────────────────────────────────────

/// A command makes one kind of call and no other: what changes the robot's software is asked for
/// by name, and looking never changes anything.
pub proof fn each_command_makes_its_own_kind_of_call(command: UpdateCommand, call: Call)
    requires
        update_does(command, call),
    ensures
        call is Check <==> (command matches UpdateCommand::Check { component } && component is Some),
        call is Status <==> command is Status || (command matches UpdateCommand::Check { component }
            && component is None),
        call is Apply <==> command is Apply,
        call is Rollback <==> command is Rollback,
        call is ResetToGolden <==> command is ResetToGolden,
        call is Select <==> command is Select,
        call is Pin <==> command is Pin,
        call is Log <==> command is Log,
        call is Subscribe <==> command is Watch,
        call.mutates() <==> (command is Apply || command is Rollback || command is ResetToGolden
            || command is Select || command is Pin),
{
}

/// A call carries what its command was given: the component, the version and the options.
pub proof fn a_call_carries_what_its_command_was_given(command: UpdateCommand, call: Call)
    requires
        update_does(command, call),
    ensures
        command matches UpdateCommand::Check { component } ==> (component matches Some(name) ==> (
        call matches Call::Check(p) && p.component@ == name@)),
        command matches UpdateCommand::Rollback { component } ==> (call matches Call::Rollback(p)
            && p.component@ == component@),
        command matches UpdateCommand::ResetToGolden { component } ==> (
        call matches Call::ResetToGolden(p) && p.component@ == component@),
        command matches UpdateCommand::Select { component, version } ==> (
        call matches Call::Select(p) && p.component@ == component@ && p.version@ == version@),
        command matches UpdateCommand::Pin { component, version } ==> (call matches Call::Pin(p)
            && p.component@ == component@ && p.version == version),
        command matches UpdateCommand::Log { limit } ==> (call matches Call::Log(p) && p.limit
            == limit),
        command matches UpdateCommand::Apply {
            component,
            version,
            git_ref,
            dry_run,
            interrupt_sessions,
        } ==> (call matches Call::Apply(p) && p.component@ == component@ && p.options.dry_run
            == dry_run && p.options.interrupt_sessions == interrupt_sessions),
{
}

/// A version that was named is installed whatever branch was named too, a branch only where no
/// version was, and the latest release only where neither was.
pub proof fn a_named_version_comes_first(version: Option<Version>, git_ref: Option<String>)
    ensures
        version matches Some(v) ==> target_for(version, git_ref) == Target::Exact(v),
        version is None && git_ref is Some ==> target_for(version, git_ref) == Target::Ref(
            git_ref->0,
        ),
        target_for(version, git_ref) is Latest <==> version is None && git_ref is None,
{
}

/// The lines about a component name it, then show what is installed and whether it is healthy,
/// each in its place.
pub proof fn a_status_shows_each_part_in_its_place(a: ComponentStatus, b: ComponentStatus)
    requires
        a.pinned is None,
        b.pinned is None,
    ensures
        a.component@.is_prefix_of(status_block(a, None)),
        a.component == b.component && a.healthy == b.healthy && a.installed is Some
            && b.installed is Some ==> text::differ_behind(
            status_block(a, None),
            status_block(b, None),
            a.component@ + ": "@,
            version::version_text(a.installed->0@),
            version::version_text(b.installed->0@),
        ),
        a.installed is None ==> status_block(a, None) == a.component@ + ": "@ + "none"@ + " ("@
            + healthy_text(a.healthy) + ")\n"@,
        a.component == b.component && a.installed == b.installed ==> text::differ_behind(
            status_block(a, None),
            status_block(b, None),
            " ("@,
            healthy_text(a.healthy),
            healthy_text(b.healthy),
        ),
{
    let none = Seq::<char>::empty();
    let t = status_block(a, None);
    let shown = match report::written(a.installed) {
        Some(v) => v,
        None => "none"@,
    };
    let (x, y) = (healthy_text(a.healthy), healthy_text(b.healthy));
    assert(t =~= a.component@ + ": "@ + shown + " ("@ + x + ")\n"@);
    assert(t.subrange(0, a.component@.len() as int) =~= a.component@);
    if a.component == b.component && a.healthy == b.healthy && a.installed is Some
        && b.installed is Some {
        let (v, w) = (
            version::version_text(a.installed->0@),
            version::version_text(b.installed->0@),
        );
        let label = a.component@ + ": "@;
        let end = " ("@ + x + ")\n"@;
        text::a_change_behind_a_label(none, label, v, w, end);
        assert(t =~= none + label + v + end);
        assert(status_block(b, None) =~= none + label + w + end);
    }
    if a.component == b.component && a.installed == b.installed {
        let before = a.component@ + ": "@ + shown;
        text::a_change_behind_a_label(before, " ("@, x, y, ")\n"@);
        assert(t =~= before + " ("@ + x + ")\n"@);
        assert(status_block(b, None) =~= before + " ("@ + y + ")\n"@);
    }
}

/// A pinned component has a line more that says to what, and an attempt that was made has one
/// more behind it; without them nothing is added.
pub proof fn a_pin_and_an_attempt_add_a_line_each(
    free: ComponentStatus,
    pinned: ComponentStatus,
    attempt: Seq<char>,
)
    requires
        free.pinned is None,
        free.component == pinned.component,
        free.installed == pinned.installed,
        free.healthy == pinned.healthy,
    ensures
        pinned.pinned matches Some(v) ==> status_block(pinned, None) == status_block(free, None)
            + "  pinned to "@ + version::version_text(v@) + "\n"@,
        status_block(pinned, Some(attempt)) == status_block(pinned, None) + "  last attempt: "@
            + attempt + "\n"@,
{
    if let Some(v) = pinned.pinned {
        let text = version::version_text(v@);
        assert(status_block(pinned, None) =~= status_block(free, None) + "  pinned to "@ + text
            + "\n"@);
    }
    assert(status_block(pinned, Some(attempt)) =~= status_block(pinned, None)
        + "  last attempt: "@ + attempt + "\n"@);
}

/// Healthy, unhealthy and never probed are told apart, and only the one that needs attention is
/// in capitals.
pub proof fn health_has_three_words(a: Option<bool>, b: Option<bool>)
    ensures
        healthy_text(a) == healthy_text(b) <==> a == b,
        healthy_text(Some(true)) == "healthy"@,
        healthy_text(Some(false)) == "UNHEALTHY"@,
        healthy_text(None) == "no probe"@,
{
    reveal_strlit("healthy");
    reveal_strlit("UNHEALTHY");
    reveal_strlit("no probe");
    assert("healthy"@.len() == 7 && "UNHEALTHY"@.len() == 9 && "no probe"@.len() == 8);
}

/// A healthy robot is called just that. Any other is called unhealthy, or degraded where only
/// its board cannot move, and the reason follows, or that none was given.
pub proof fn an_unhealthy_robot_gives_its_reason(health: HealthResult, degraded: bool)
    ensures
        health.healthy ==> health_text(health, degraded) == "healthy"@,
        !health.healthy ==> ({
            let t = health_text(health, degraded);
            let word = if degraded {
                "degraded"@
            } else {
                "unhealthy"@
            };
            &&& word.is_prefix_of(t)
            &&& health.reason matches Some(why) ==> t.skip(word.len() as int) == ": "@ + why@
            &&& health.reason is None ==> t.skip(word.len() as int) == ": "@ + "no reason given"@
        }),
{
    if !health.healthy {
        let t = health_text(health, degraded);
        let word = if degraded {
            "degraded"@
        } else {
            "unhealthy"@
        };
        let why = report::or_else(health.reason, "no reason given"@);
        assert(t.subrange(0, word.len() as int) =~= word);
        assert(t.skip(word.len() as int) =~= ": "@ + why);
    }
}

/// The network's page in parts.
spec fn net_parts(status: NetStatusResult) -> Seq<Seq<char>> {
    seq![
        "state   "@,
        net_state_name(status.state),
        "\n"@,
        row_if("ssid    "@, status.ssid, signal_note(status.signal)),
        row_if("ipv4    "@, status.ip4, Seq::empty()),
        row_if("ipv6    "@, status.ip6, Seq::empty()),
        row_if("iface   "@, status.iface, "  "@ + report::or_else(status.mac, "unknown"@)),
        if status.state == NetState::Unavailable {
            "\nNetworkManager manages no wifi device. If this board still runs netplan, \nrun scripts/migrate-network.sh first."@
        } else {
            Seq::empty()
        },
    ]
}

#[verifier::rlimit(30)]
proof fn the_network_page_reads(status: NetStatusResult)
    ensures
        net_status_page(status) == text::run_together(net_parts(status)),
{
    reveal_with_fuel(text::run_together, 9);
    assert(Seq::<char>::empty() + net_parts(status)[0] =~= net_parts(status)[0]);
}

/// A labelled line shows its value behind the label and is there exactly where the value is.
pub proof fn a_labelled_line_shows_its_value(label: Seq<char>, value: String, after: Seq<char>)
    ensures
        row_if(label, Some(value), after) == (label + value@ + after).push('\n'),
        row_if(label, None, after).len() == 0,
{
    reveal_strlit("\n");
    assert(row_if(label, Some(value), after) =~= (label + value@ + after).push('\n'));
}

/// The network's page shows the name, the two addresses and the interface each on its own line,
/// in that order, and another value of one changes no other line.
#[verifier::rlimit(30)]
pub proof fn the_network_page_keeps_its_lines(a: NetStatusResult, b: NetStatusResult)
    ensures
        a.state == b.state && a.ip4 == b.ip4 && a.ip6 == b.ip6 && a.iface == b.iface && a.mac
            == b.mac ==> text::differ_behind(
            net_status_page(a),
            net_status_page(b),
            "\n"@,
            row_if("ssid    "@, a.ssid, signal_note(a.signal)),
            row_if("ssid    "@, b.ssid, signal_note(b.signal)),
        ),
        a.state == b.state && a.ssid == b.ssid && a.signal == b.signal && a.ip6 == b.ip6 && a.iface
            == b.iface && a.mac == b.mac ==> text::differ_behind(
            net_status_page(a),
            net_status_page(b),
            row_if("ssid    "@, a.ssid, signal_note(a.signal)),
            row_if("ipv4    "@, a.ip4, Seq::empty()),
            row_if("ipv4    "@, b.ip4, Seq::empty()),
        ),
        a.state == b.state && a.ssid == b.ssid && a.signal == b.signal && a.ip4 == b.ip4 && a.iface
            == b.iface && a.mac == b.mac ==> text::differ_behind(
            net_status_page(a),
            net_status_page(b),
            row_if("ipv4    "@, a.ip4, Seq::empty()),
            row_if("ipv6    "@, a.ip6, Seq::empty()),
            row_if("ipv6    "@, b.ip6, Seq::empty()),
        ),
        a.state == b.state && a.ssid == b.ssid && a.signal == b.signal && a.ip4 == b.ip4 && a.ip6
            == b.ip6 ==> text::differ_behind(
            net_status_page(a),
            net_status_page(b),
            row_if("ipv6    "@, a.ip6, Seq::empty()),
            row_if("iface   "@, a.iface, "  "@ + report::or_else(a.mac, "unknown"@)),
            row_if("iface   "@, b.iface, "  "@ + report::or_else(b.mac, "unknown"@)),
        ),
        text::reads(net_status_page(a), 0, "state   "@ + net_state_name(a.state) + "\n"@),
{
    the_network_page_reads(a);
    the_network_page_reads(b);
    let (x, y) = (net_parts(a), net_parts(b));
    if a.state == b.state && a.ip4 == b.ip4 && a.ip6 == b.ip6 && a.iface == b.iface && a.mac
        == b.mac {
        text::a_change_in_one_part(x, y, 3);
    }
    if a.state == b.state && a.ssid == b.ssid && a.signal == b.signal && a.ip6 == b.ip6 && a.iface
        == b.iface && a.mac == b.mac {
        text::a_change_in_one_part(x, y, 4);
    }
    if a.state == b.state && a.ssid == b.ssid && a.signal == b.signal && a.ip4 == b.ip4 && a.iface
        == b.iface && a.mac == b.mac {
        text::a_change_in_one_part(x, y, 5);
    }
    if a.state == b.state && a.ssid == b.ssid && a.signal == b.signal && a.ip4 == b.ip4 && a.ip6
        == b.ip6 {
        text::a_change_in_one_part(x, y, 6);
    }
    let start = "state   "@ + net_state_name(a.state) + "\n"@;
    assert(net_status_page(a).subrange(0, start.len() as int) =~= start);
}

/// Three states of the network go by three names, and advice is given for the one that is a
/// mistake in how the board was set up.
pub proof fn only_an_unmanaged_network_gets_advice(a: NetStatusResult, s: NetState, t: NetState)
    ensures
        net_state_name(s) == net_state_name(t) <==> s == t,
        a.state == NetState::Unavailable
            ==> "\nNetworkManager manages no wifi device. If this board still runs netplan, \nrun scripts/migrate-network.sh first."@.is_suffix_of(
        net_status_page(a)),
        a.state != NetState::Unavailable <==> net_status_page(a).last() == '\n',
{
    reveal_strlit("Connected");
    reveal_strlit("Disconnected");
    reveal_strlit("Unavailable");
    reveal_strlit(
        "\nNetworkManager manages no wifi device. If this board still runs netplan, \nrun scripts/migrate-network.sh first.",
    );
    assert("Connected"@.len() == 9 && "Disconnected"@.len() == 12 && "Unavailable"@.len() == 11);
    reveal_strlit("\n");
    let page = net_status_page(a);
    if a.state == NetState::Unavailable {
        let advice = "\nNetworkManager manages no wifi device. If this board still runs netplan, \nrun scripts/migrate-network.sh first."@;
        assert(page.subrange(page.len() - advice.len(), page.len() as int) =~= advice);
    }
}

/// A signal is shown in brackets as a percentage, and nothing is shown where it is not known.
pub proof fn a_signal_is_shown_where_it_is_known(a: u8, b: u8)
    ensures
        text::differ_behind(
            signal_note(Some(a)),
            signal_note(Some(b)),
            "  ("@,
            text::dec(a as nat) + "%)"@,
            text::dec(b as nat) + "%)"@,
        ),
        signal_note(None).len() == 0,
{
    let none = Seq::<char>::empty();
    let (x, y) = (text::dec(a as nat), text::dec(b as nat));
    text::a_change_behind_a_label(none, "  ("@, x + "%)"@, y + "%)"@, none);
    assert(signal_note(Some(a)) =~= none + "  ("@ + (x + "%)"@) + none);
    assert(signal_note(Some(b)) =~= none + "  ("@ + (y + "%)"@) + none);
}

/// The row of a network keeps its columns: how strong it is, ending in the third, how it is
/// secured, and its name, marked exactly where it is stored.
#[verifier::rlimit(30)]
pub proof fn a_network_row_keeps_its_columns(n: Network)
    ensures
        ({
            let t = network_row(n);
            let signal = text::dec(n.signal as nat);
            &&& text::reads(t, 3 - signal.len(), signal)
            &&& t[3] == '%'
            &&& text::reads(t, 6, security_name(n.security))
            &&& text::reads(t, 19, n.ssid@)
            &&& n.saved ==> t.skip(19int + n.ssid@.len()) == " (saved)\n"@
            &&& !n.saved ==> t.skip(19int + n.ssid@.len()) == "\n"@
        }),
{
    let t = network_row(n);
    let signal = text::dec(n.signal as nat);
    let security = security_name(n.security);
    reveal_with_fuel(text::dec, 4);
    reveal_strlit("Open");
    reveal_strlit("WpaPsk");
    reveal_strlit("Enterprise");
    reveal_strlit("%  ");
    reveal_strlit(" ");
    reveal_strlit(" (saved)");
    reveal_strlit(" (saved)\n");
    reveal_strlit("\n");
    text::alignment_adds_spaces_in_front(signal, 3);
    text::padding_adds_spaces_behind(security, 12);
    let a = text::right_aligned(signal, 3);
    let b = text::padded(security, 12);
    let mark: Seq<char> = if n.saved {
        " (saved)"@
    } else {
        Seq::empty()
    };
    assert(t =~= a + "%  "@ + b + " "@ + n.ssid@ + mark + "\n"@);
    assert(t.subrange(3 - signal.len(), 3) =~= signal) by {
        assert forall|i: int| 0 <= i < signal.len() implies t[3 - signal.len() + i]
            == signal[i] by {
            assert(a.skip(3 - signal.len())[i] == a[3 - signal.len() + i]);
        }
    }
    assert(t.subrange(6, 6int + security.len()) =~= security) by {
        assert forall|i: int| 0 <= i < security.len() implies t[6 + i] == security[i] by {
            assert(b.take(security.len() as int)[i] == b[i]);
        }
    }
    assert(t.subrange(19, 19int + n.ssid@.len()) =~= n.ssid@);
    if n.saved {
        assert(t.skip(19int + n.ssid@.len()) =~= " (saved)\n"@);
    } else {
        assert(t.skip(19int + n.ssid@.len()) =~= "\n"@);
    }
}

/// Every network has its row, in the order they were listed.
pub proof fn every_network_has_its_row(networks: Seq<Network>, n: Network)
    ensures
        network_rows(networks.push(n)) == network_rows(networks) + network_row(n),
        network_rows(Seq::empty()).len() == 0,
        network_rows(networks) == text::run_together(
            networks.map_values(|n: Network| network_row(n)),
        ),
    decreases networks.len(),
{
    assert(networks.push(n).drop_last() == networks);
    if networks.len() > 0 {
        let rest = networks.drop_last();
        every_network_has_its_row(rest, n);
        assert(networks.map_values(|n: Network| network_row(n)).drop_last() =~= rest.map_values(
            |n: Network| network_row(n),
        ));
    }
}

/// Every way a network is secured has a name of its own.
pub proof fn a_security_has_a_name_of_its_own(a: Security, b: Security)
    ensures
        security_name(a) == security_name(b) <==> a == b,
{
    reveal_strlit("Open");
    reveal_strlit("WpaPsk");
    reveal_strlit("Enterprise");
    assert("Open"@.len() == 4 && "WpaPsk"@.len() == 6 && "Enterprise"@.len() == 10);
}

/// Every way a join fails is explained differently.
pub proof fn each_failed_join_has_its_own_advice(a: ConnectFailure, b: ConnectFailure)
    ensures
        advice(a) == advice(b) <==> a == b,
{
    reveal_strlit("the passphrase was rejected");
    reveal_strlit("that network is not in range");
    reveal_strlit("it associated but never finished; try again");
    reveal_strlit("this network needs something we cannot do");
    reveal_strlit("the join failed");
    assert("the passphrase was rejected"@.len() == 27);
    assert("that network is not in range"@.len() == 28);
    assert("it associated but never finished; try again"@.len() == 43);
    assert("this network needs something we cannot do"@.len() == 41);
    assert("the join failed"@.len() == 15);
}

/// An uptime is written as the days, hours and minutes it is made of: the hours are less than a
/// day, the minutes less than an hour, what is left out is less than a minute, and a unit is left
/// out only where it and every larger one is zero.
pub proof fn an_uptime_reads_as_what_it_is_made_of(seconds: u64, d: nat, h: nat, m: nat)
    requires
        h < 24,
        m < 60,
        86400 * d + 3600 * h + 60 * m <= seconds < 86400 * d + 3600 * h + 60 * m + 60,
    ensures
        uptime_text(seconds) == (if d > 0 {
            text::dec(d) + "d "@
        } else {
            Seq::empty()
        }) + (if d > 0 || h > 0 {
            text::dec(h) + "h "@
        } else {
            Seq::empty()
        }) + text::dec(m) + "m"@,
{
    let s = seconds as int;
    let rest = s - 86400 * d;
    assert(s / 86400 == d && s % 86400 == rest) by {
        vstd::arithmetic::div_mod::lemma_fundamental_div_mod_converse(s, 86400, d as int, rest);
    }
    let left = rest - 3600 * h;
    assert(rest / 3600 == h && rest % 3600 == left) by {
        vstd::arithmetic::div_mod::lemma_fundamental_div_mod_converse(rest, 3600, h as int, left);
    }
    assert(s % 3600 == left) by {
        vstd::arithmetic::div_mod::lemma_fundamental_div_mod_converse(s, 3600, 24int * d + h, left);
    }
    assert(left / 60 == m);
    let none = Seq::<char>::empty();
    let (a, b, c) = (text::dec(d), text::dec(h), text::dec(m));
    if d > 0 {
        assert(uptime_text(seconds) =~= a + "d "@ + (b + "h "@) + c + "m"@);
    } else if h > 0 {
        assert(uptime_text(seconds) =~= none + (b + "h "@) + c + "m"@);
    } else {
        assert(uptime_text(seconds) =~= none + none + c + "m"@);
    }
}

} // verus!
