use duck::client::{
    consider, hello_result, is_blank, not_sent, result_of, terminal_failure, undecodable,
    Client, Failure, Heard, Sending, Waiting,
};
use duck::code;
use duck::commands::{
    check_all, format_uptime, health_verdict, net_call, render_forget, render_health, render_info,
    render_net_status, render_pin, render_reboot, render_renamed, render_scan, render_status,
    report_connect, secret, shown, system_call, unreadable_health, update_call, NetCommand, Shown,
    SystemCommand, UpdateCommand,
};
use duck::exit;
use duck::progress::{watch_line, Reporter};
use duck::proto::{
    Call, ComponentId, ComponentStatus, ConnectFailure, ConnectResult, Error, ForgetResult,
    HealthResult, HelloResult, Id, NetScanResult, NetState, NetStatusResult, Network,
    PairingPinResult, Phase, Progress, RebootResult, Response, Security, SetNameResult,
    SystemInfoResult, Target,
};
use duck::version::Version;

fn apply(version: Option<Version>, git_ref: Option<&str>) -> UpdateCommand {
    UpdateCommand::Apply {
        component: "daemon".into(),
        version,
        git_ref: git_ref.map(str::to_owned),
        dry_run: true,
        interrupt_sessions: false,
    }
}

fn target(command: &UpdateCommand) -> Target {
    match update_call(command) {
        Call::Apply(params) => {
            assert_eq!(params.component.as_str(), "daemon");
            assert!(params.options.dry_run);
            assert!(!params.options.interrupt_sessions);
            params.target
        }
        other => panic!("{other:?}"),
    }
}

#[test]
fn apply_parses_exact_version_and_dry_run() {
    let version = Version::parse("1.4.2");
    assert_eq!(version, Some(Version::new(1, 4, 2)));
    match update_call(&apply(version, None)) {
        Call::Apply(params) => {
            assert_eq!(params.component.as_str(), "daemon");
            assert_eq!(params.target, Target::Exact(Version::new(1, 4, 2)));
            assert!(params.options.dry_run);
        }
        other => panic!("{other:?}"),
    }
}

/// A malformed version must be rejected by parsing, not sent to the daemon.
#[test]
fn apply_rejects_bad_version() {
    assert_eq!(Version::parse("nope"), None);
}

/// Omitting the version means "latest", which must stay expressible.
#[test]
fn apply_without_version_is_latest() {
    match update_call(&UpdateCommand::Apply {
        component: "model".into(),
        version: None,
        git_ref: None,
        dry_run: false,
        interrupt_sessions: false,
    }) {
        Call::Apply(params) => {
            assert_eq!(params.component.as_str(), "model");
            assert_eq!(params.target, Target::Latest);
        }
        other => panic!("{other:?}"),
    }
}

/// A branch must reach the daemon as `Target::Ref`, not as anything else.
#[test]
fn apply_ref_becomes_a_ref_target() {
    assert_eq!(
        target(&apply(None, Some("my-branch"))),
        Target::Ref("my-branch".into())
    );
}

/// A branch name with a slash must arrive untouched.
#[test]
fn apply_ref_accepts_a_slash() {
    assert_eq!(
        target(&apply(None, Some("feature/foo"))),
        Target::Ref("feature/foo".into())
    );
}

#[test]
fn every_update_command_makes_its_call() {
    assert_eq!(
        update_call(&UpdateCommand::Check { component: None }),
        Call::Status
    );
    match update_call(&UpdateCommand::Check {
        component: Some("model".into()),
    }) {
        Call::Check(p) => assert_eq!(p.component.as_str(), "model"),
        other => panic!("{other:?}"),
    }
    let model = || "model".to_owned();
    assert_eq!(
        update_call(&UpdateCommand::Rollback { component: model() }).method(),
        "update.rollback"
    );
    assert_eq!(
        update_call(&UpdateCommand::ResetToGolden { component: model() }).method(),
        "update.resetToGolden"
    );
    match update_call(&UpdateCommand::Select {
        component: model(),
        version: Version::new(1, 0, 0),
    }) {
        Call::Select(p) => assert_eq!(p.version, Version::new(1, 0, 0)),
        other => panic!("{other:?}"),
    }
    match update_call(&UpdateCommand::Pin {
        component: model(),
        version: None,
    }) {
        Call::Pin(p) => assert_eq!(p.version, None),
        other => panic!("{other:?}"),
    }
    assert_eq!(update_call(&UpdateCommand::Status { json: true }), Call::Status);
    match update_call(&UpdateCommand::Log { limit: 20 }) {
        Call::Log(p) => assert_eq!(p.limit, 20),
        other => panic!("{other:?}"),
    }
    assert_eq!(update_call(&UpdateCommand::Watch), Call::Subscribe);
}

/// Without a component, everything that is installed is checked.
#[test]
fn a_check_of_nothing_in_particular_is_a_check_of_everything() {
    let status = |name: &str| ComponentStatus {
        component: ComponentId::new(name),
        installed: None,
        phase: Phase::Idle,
        healthy: None,
        pinned: None,
        last_attempt: None,
    };
    let calls = check_all(&vec![status("daemon"), status("model")]);
    let named: Vec<String> = calls
        .iter()
        .map(|call| match call {
            Call::Check(p) => p.component.as_str().to_owned(),
            other => panic!("{other:?}"),
        })
        .collect();
    assert_eq!(named, vec!["daemon", "model"]);
    assert!(check_all(&vec![]).is_empty());
}

#[test]
fn what_does_not_decode_is_printed_as_it_came() {
    let status = |json| UpdateCommand::Status { json };
    assert_eq!(shown(&status(false), true), Shown::Statuses);
    assert_eq!(shown(&status(false), false), Shown::Json);
    assert_eq!(shown(&status(true), true), Shown::Json);
    assert_eq!(shown(&UpdateCommand::Log { limit: 1 }, true), Shown::Attempts);
    assert_eq!(shown(&UpdateCommand::Log { limit: 1 }, false), Shown::Json);
    assert_eq!(shown(&UpdateCommand::Watch, true), Shown::Json);
}

#[test]
fn a_component_is_shown_with_what_is_known() {
    let mut status = ComponentStatus {
        component: ComponentId::new("daemon"),
        installed: Some(Version::new(0, 2, 0)),
        phase: Phase::Idle,
        healthy: Some(true),
        pinned: None,
        last_attempt: None,
    };
    assert_eq!(render_status(&status, None), "daemon: 0.2.0 (healthy)\n");
    status.installed = None;
    status.healthy = Some(false);
    status.pinned = Some(Version::new(0, 1, 0));
    assert_eq!(
        render_status(&status, Some("{\"at\":1}")),
        "daemon: none (UNHEALTHY)\n  pinned to 0.1.0\n  last attempt: {\"at\":1}\n"
    );
    status.healthy = None;
    assert!(render_status(&status, None).contains("(no probe)"));
}

#[test]
fn an_unhealthy_robot_is_a_refusal_with_nothing_more_to_say() {
    let well = HealthResult {
        healthy: true,
        reason: None,
    };
    assert_eq!(render_health(&well, true), "healthy");
    assert!(health_verdict(&well).is_ok());
    let ill = HealthResult {
        healthy: false,
        reason: Some("motors not responding".into()),
    };
    assert_eq!(render_health(&ill, false), "unhealthy: motors not responding");
    assert_eq!(render_health(&ill, true), "degraded: motors not responding");
    let failure = health_verdict(&ill).unwrap_err();
    assert_eq!(failure.code, exit::REFUSED);
    assert_eq!(failure.report(), None);
    let mute = HealthResult {
        healthy: false,
        reason: None,
    };
    assert_eq!(render_health(&mute, false), "unhealthy: no reason given");
    let odd = unreadable_health("missing field");
    assert_eq!(odd.code, exit::FAILED);
    assert_eq!(
        odd.report().unwrap(),
        "error: robotd answered robot.health with something unexpected: missing field"
    );
}

#[test]
fn a_typed_passphrase_takes_the_place_of_an_argument() {
    let connect = |psk_stdin| NetCommand::Connect {
        ssid: "Home".into(),
        psk: Some("argument".into()),
        psk_stdin,
        json: true,
    };
    let key = |call| match call {
        (Call::NetConnect(p), true) => {
            assert_eq!(p.ssid, "Home");
            p.psk
        }
        other => panic!("{other:?}"),
    };
    assert_eq!(
        key(net_call(connect(true), Some("typed".into()))).as_deref(),
        Some("typed")
    );
    assert_eq!(key(net_call(connect(false), None)).as_deref(), Some("argument"));
    assert_eq!(
        net_call(NetCommand::Status { json: false }, None),
        (Call::NetStatus, false)
    );
    assert_eq!(
        net_call(NetCommand::Scan { json: true }, None),
        (Call::NetScan, true)
    );
    let (call, json) = net_call(
        NetCommand::Forget {
            ssid: "Home".into(),
            json: false,
        },
        None,
    );
    assert_eq!(call.method(), "net.forget");
    assert!(!json);
}

/// Only the line ending goes: a passphrase may end in a space.
#[test]
fn a_passphrase_keeps_its_spaces() {
    assert_eq!(secret(Ok("hunter2 \r\n")).unwrap(), "hunter2 ");
    assert_eq!(secret(Ok("\n\r\n")).unwrap(), "");
    assert_eq!(secret(Ok(" x")).unwrap(), " x");
    let failure = secret(Err("closed")).unwrap_err();
    assert_eq!(failure.code, exit::USAGE);
    assert_eq!(failure.message, "cannot read the passphrase: closed");
}

#[test]
fn the_network_is_shown_with_what_is_known() {
    let mut status = NetStatusResult {
        state: NetState::Connected,
        ssid: Some("Pollen".into()),
        signal: Some(82),
        ip4: Some("192.168.50.63".into()),
        ip6: None,
        mac: None,
        iface: Some("wlan0".into()),
    };
    assert_eq!(
        render_net_status(&status),
        "state   Connected\nssid    Pollen  (82%)\nipv4    192.168.50.63\niface   wlan0  unknown"
    );
    status.signal = None;
    status.ip6 = Some("fe80::1".into());
    status.mac = Some("00:11".into());
    assert_eq!(
        render_net_status(&status),
        "state   Connected\nssid    Pollen\nipv4    192.168.50.63\nipv6    fe80::1\niface   wlan0  00:11"
    );
    let none = NetStatusResult {
        state: NetState::Unavailable,
        ssid: None,
        signal: None,
        ip4: None,
        ip6: None,
        mac: None,
        iface: None,
    };
    assert_eq!(
        render_net_status(&none),
        "state   Unavailable\n\nNetworkManager manages no wifi device. If this board still runs netplan, \n\
         run scripts/migrate-network.sh first."
    );
}

#[test]
fn a_scan_is_one_row_for_each_network() {
    let network = |ssid: &str, signal, security, saved| Network {
        ssid: ssid.into(),
        signal,
        security,
        saved,
    };
    assert_eq!(
        render_scan(&NetScanResult { networks: vec![] }),
        "no networks in range"
    );
    assert_eq!(
        render_scan(&NetScanResult {
            networks: vec![
                network("Pollen", 100, Security::WpaPsk, true),
                network("Cafe", 7, Security::Open, false),
                network("Corp  ", 40, Security::Enterprise, false),
            ]
        }),
        "100%  WpaPsk       Pollen (saved)\n  7%  Open         Cafe\n 40%  Enterprise   Corp"
    );
}

#[test]
fn a_failed_join_is_a_refusal_with_advice() {
    assert_eq!(
        report_connect(ConnectResult::Connected {
            ssid: "Cafe".into(),
            ip4: Some("10.0.0.2".into())
        })
        .unwrap(),
        "connected to Cafe\nipv4      10.0.0.2"
    );
    assert_eq!(
        report_connect(ConnectResult::Connected {
            ssid: "Cafe".into(),
            ip4: None
        })
        .unwrap(),
        "connected to Cafe\nipv4      pending (DHCP)"
    );
    for (reason, advice) in [
        (ConnectFailure::BadKey, "the passphrase was rejected"),
        (ConnectFailure::NotFound, "that network is not in range"),
        (
            ConnectFailure::Timeout,
            "it associated but never finished; try again",
        ),
        (
            ConnectFailure::Unsupported,
            "this network needs something we cannot do",
        ),
        (ConnectFailure::Other, "the join failed"),
    ] {
        let failure = report_connect(ConnectResult::Failed {
            reason,
            detail: None,
        })
        .unwrap_err();
        assert_eq!(failure.code, exit::REFUSED);
        assert_eq!(failure.message, advice);
    }
    assert_eq!(
        report_connect(ConnectResult::Failed {
            reason: ConnectFailure::Other,
            detail: Some("code 7".into())
        })
        .unwrap_err()
        .message,
        "the join failed (code 7)"
    );
    assert_eq!(
        render_forget("Cafe", ForgetResult { removed: true }),
        "forgot Cafe"
    );
    assert_eq!(
        render_forget("Cafe", ForgetResult { removed: false }),
        "Cafe was not stored"
    );
}

#[test]
fn a_reboot_nobody_confirmed_is_refused() {
    let failure = system_call(SystemCommand::Reboot {
        yes: false,
        json: false,
    })
    .unwrap_err();
    assert_eq!(failure.code, exit::USAGE);
    assert!(failure.message.contains("--yes"));
    assert_eq!(
        system_call(SystemCommand::Reboot {
            yes: true,
            json: true
        })
        .unwrap(),
        (Call::SystemReboot, true)
    );
    assert_eq!(
        system_call(SystemCommand::Info { json: false }).unwrap(),
        (Call::SystemInfo, false)
    );
    assert_eq!(
        system_call(SystemCommand::Pin { json: false }).unwrap(),
        (Call::SystemPairingPin, false)
    );
    match system_call(SystemCommand::SetPin {
        pin: "123456".into(),
        json: false,
    })
    .unwrap()
    {
        (Call::SystemSetPairingPin(p), false) => assert_eq!(p.pin, "123456"),
        other => panic!("{other:?}"),
    }
    match system_call(SystemCommand::SetName {
        name: "duck".into(),
        json: false,
    })
    .unwrap()
    {
        (Call::SystemSetName(p), false) => assert_eq!(p.name, "duck"),
        other => panic!("{other:?}"),
    }
}

#[test]
fn an_uptime_starts_with_its_largest_part() {
    assert_eq!(format_uptime(0), "0m");
    assert_eq!(format_uptime(59), "0m");
    assert_eq!(format_uptime(3599), "59m");
    assert_eq!(format_uptime(3600), "1h 0m");
    assert_eq!(format_uptime(86399), "23h 59m");
    assert_eq!(format_uptime(90061), "1d 1h 1m");
    assert_eq!(format_uptime(u64::MAX), "213503982334601d 7h 0m");
}

#[test]
fn the_system_is_shown() {
    let mut info = SystemInfoResult {
        name: "duck".into(),
        serial: None,
        uptime_seconds: 3600,
    };
    assert_eq!(
        render_info(&info),
        "name    duck\nserial  not provisioned\nuptime  1h 0m"
    );
    info.serial = Some("D-7".into());
    assert!(render_info(&info).contains("serial  D-7"));
    assert_eq!(
        render_renamed(&SetNameResult {
            name: "mallard".into()
        }),
        "name    mallard\nBluetooth advertises the new name after:  systemctl restart btd"
    );
    let mut pin = PairingPinResult {
        pin: "123456".into(),
        is_default: false,
    };
    assert_eq!(render_pin(&pin), "pairing PIN  123456");
    pin.is_default = true;
    assert!(render_pin(&pin).contains("factory default"));
    assert_eq!(
        render_reboot(RebootResult { in_seconds: 5 }),
        "rebooting in 5s"
    );
}

// ── progress ─────────────────────────────────────────────────────────────────

#[test]
fn a_terminal_has_one_line_rewritten() {
    let mut reporter = Reporter::new();
    let down = Phase::Downloading;
    assert_eq!(reporter.report(true, Phase::Checking, None), "  Checking\n");
    assert_eq!(reporter.report(true, down, Some(1)), "\r  Downloading 1%");
    assert_eq!(reporter.report(true, down, Some(1)), "\r  Downloading 1%");
    // A phase that begins while the line is open ends it first.
    assert_eq!(reporter.report(true, Phase::Verifying, None), "\n  Verifying\n");
    assert_eq!(reporter.report(true, down, Some(100)), "\r  Downloading 100%\n");
    assert_eq!(reporter.report(true, Phase::Swapping, None), "  Swapping\n");
}

#[test]
fn a_pipe_has_one_line_for_each_tenth() {
    let mut reporter = Reporter::new();
    let down = Phase::Downloading;
    let lines: Vec<String> = (0..=100u8)
        .map(|p| reporter.report(false, down, Some(p)))
        .filter(|line| !line.is_empty())
        .collect();
    let expected: Vec<String> = (0..=10)
        .map(|d| format!("  Downloading {}%\n", d * 10))
        .collect();
    assert_eq!(lines, expected);
    assert_eq!(reporter.report(false, Phase::Verifying, None), "  Verifying\n");
    assert_eq!(reporter.report(false, down, Some(99)), "  Downloading 99%\n");
}

fn progress(percent: Option<u8>) -> Progress {
    Progress {
        component: ComponentId::new("daemon"),
        phase: Phase::Downloading,
        percent,
        detail: None,
    }
}

#[test]
fn following_prints_one_line_for_each_report() {
    assert_eq!(watch_line(&progress(Some(42))), "daemon Downloading Some(42)");
    assert_eq!(watch_line(&progress(None)), "daemon Downloading None");
}

// ── one conversation ─────────────────────────────────────────────────────────

#[test]
fn an_error_keeps_the_distinction_a_script_branches_on() {
    for (code, exit) in [
        (code::BUSY, exit::BUSY),
        (code::INCOMPATIBLE, exit::REFUSED),
        (code::PREFLIGHT_FAILED, exit::REFUSED),
        (code::VERIFICATION_FAILED, exit::REFUSED),
        (code::WOULD_DOWNGRADE, exit::REFUSED),
        (code::NOT_INSTALLED, exit::REFUSED),
        (code::ARCHIVE_TOO_LARGE, exit::REFUSED),
        (code::PERMISSION_DENIED, exit::DENIED),
        (code::PROTOCOL_MISMATCH, exit::USAGE),
        (code::NETWORK, exit::FAILED),
        (code::INTERNAL_ERROR, exit::FAILED),
        (0, exit::FAILED),
    ] {
        let failure = Failure::from_rpc(Error::new(code, "no".into()));
        assert_eq!(failure.code, exit, "{code}");
        assert_eq!(failure.message, "no");
    }
    assert_eq!(
        [
            exit::OK,
            exit::FAILED,
            exit::USAGE,
            exit::UNREACHABLE,
            exit::BUSY,
            exit::REFUSED,
            exit::DENIED
        ],
        [0, 1, 2, 3, 4, 5, 6]
    );
    assert_eq!(Failure::silent(exit::REFUSED).report(), None);
}

#[test]
fn a_failure_names_the_service() {
    let failure = duck::client::unreachable("robotd", "/run/robotd.sock", "refused");
    assert_eq!(failure.code, exit::UNREACHABLE);
    assert_eq!(
        failure.message,
        "cannot reach robotd at /run/robotd.sock: refused\n\
         Is the service running?  systemctl status robotd"
    );
    assert_eq!(
        not_sent(Sending::Splitting, "x"),
        Failure::new(exit::FAILED, "could not split the socket: x".into())
    );
    assert_eq!(
        not_sent(Sending::Encoding, "x"),
        Failure::new(exit::FAILED, "could not encode request: x".into())
    );
    assert_eq!(
        not_sent(Sending::Writing, "x"),
        Failure::new(exit::UNREACHABLE, "could not send request: x".into())
    );
    assert_eq!(terminal_failure("x").message, "terminal error: x");
    assert_eq!(
        undecodable("missing field `state`").message,
        "cannot read the daemon's answer (missing field `state`). \
         Are robotctl and configd the same build?"
    );
}

#[test]
fn only_the_answer_to_this_request_ends_the_wait() {
    let mut client = Client::new();
    assert_eq!(client.take_id(), Id::Number(1));
    let id = client.take_id();
    assert_eq!(id, Id::Number(2));
    let answer = |id| Heard::Answer(Response::ok(id, serde_json::Value::Null));

    assert!(matches!(consider(&id, Heard::Blank), Waiting::Continue));
    assert!(matches!(consider(&id, Heard::Note(None)), Waiting::Continue));
    match consider(&id, Heard::Note(Some(progress(Some(3))))) {
        Waiting::Report(p) => assert_eq!(p, progress(Some(3))),
        other => panic!("{other:?}"),
    }
    assert!(matches!(
        consider(&id, answer(Some(Id::Number(1)))),
        Waiting::Continue
    ));
    assert!(matches!(consider(&id, answer(None)), Waiting::Continue));
    assert!(matches!(
        consider(&id, answer(Some(Id::Number(2)))),
        Waiting::Done(_)
    ));
    let fail = |heard| match consider(&id, heard) {
        Waiting::Fail(f) => (f.code, f.message),
        other => panic!("{other:?}"),
    };
    assert_eq!(
        fail(Heard::Lost("reset".into())),
        (exit::UNREACHABLE, "connection lost: reset".to_owned())
    );
    assert_eq!(
        fail(Heard::Closed),
        (exit::UNREACHABLE, "updaterd closed the connection".to_owned())
    );
    assert_eq!(
        fail(Heard::Malformed {
            why: "eof".into(),
            line: "{".into()
        }),
        (exit::FAILED, "malformed response: eof: {".to_owned())
    );
    assert!(is_blank(" \t\n"));
    assert!(is_blank(""));
    assert!(!is_blank(" {} "));
}

#[test]
fn an_answer_is_its_result_or_its_error() {
    let value = serde_json::Value::from(3u8);
    assert_eq!(
        result_of(Response::ok(None, value.clone())),
        Ok(Some(value))
    );
    let refused = result_of(Response::err(None, Error::new(code::BUSY, "later".into())));
    assert_eq!(refused, Err(Failure::new(exit::BUSY, "later".into())));

    let hello = || HelloResult {
        api_version: 2,
        daemon_version: None,
        revision: None,
    };
    assert_eq!(hello_result(None, Some(hello())), Ok(hello()));
    assert_eq!(
        hello_result(
            Some(Error::new(code::PROTOCOL_MISMATCH, "v1".into())),
            Some(hello())
        ),
        Err(Failure::new(
            exit::FAILED,
            "v1\nrobotctl and updaterd are out of step; install matching versions.".into()
        ))
    );
    assert_eq!(
        hello_result(None, None),
        Err(Failure::new(
            exit::FAILED,
            "daemon answered hello in an unexpected shape".into()
        ))
    );
}
