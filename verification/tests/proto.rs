use duck::code;
use duck::method;
use duck::proto::{
    build_info, ApplyOptions, BuildInfo, Call, ComponentId, Error, Id, PadPairParams, Phase,
    Request, Response, JSONRPC_VERSION,
};

#[test]
fn build_info_is_explicit_about_an_unknown_revision() {
    let local = BuildInfo {
        version: "0.2.0",
        revision: None,
        built_at: None,
    };
    assert_eq!(local.to_string(), "0.2.0 (rev unknown, not a CI build)");

    let released = BuildInfo {
        version: "0.2.0",
        revision: Some("abc1234"),
        built_at: Some("2026-07-28T12:00:00Z"),
    };
    assert_eq!(
        released.to_string(),
        "0.2.0 (rev abc1234, built 2026-07-28T12:00:00Z)"
    );
}

#[test]
fn build_info_macro_reports_a_version() {
    let info = build_info("0.1.0", None, None);
    assert_eq!(info.version, "0.1.0");
    assert!(!info.version.is_empty());
    assert_eq!(info.to_string(), "0.1.0 (rev unknown, not a CI build)");
}

#[test]
fn a_request_says_what_it_speaks() {
    let params = serde_json::Value::from(7u8);
    let request = Request::new(Id::Number(1), method::APPLY, params.clone());
    assert_eq!(request.jsonrpc, "2.0");
    assert_eq!(request.id, Some(Id::Number(1)));
    assert_eq!(request.method, "update.apply");
    assert_eq!(request.params, Some(params.clone()));
    assert!(!request.is_notification());

    let note = Request::notification(method::PROGRESS, params);
    assert_eq!(note.jsonrpc, JSONRPC_VERSION);
    assert_eq!(note.id, None, "notifications must not carry an id");
    assert_eq!(note.method, "update.progress");
    assert!(note.is_notification());
}

#[test]
fn a_response_is_a_result_or_an_error() {
    let ok = Response::ok(Some(Id::Text("x".into())), serde_json::Value::Bool(true));
    assert_eq!(ok.result, Some(serde_json::Value::Bool(true)));
    assert_eq!(ok.error, None);
    let err = Response::err(
        Some(Id::Number(7)),
        Error::new(code::BUSY, "another update is in progress".into()),
    );
    assert_eq!(err.result, None);
    assert_eq!(err.jsonrpc, "2.0");
    let error = err.error.unwrap();
    assert_eq!(error.code, 1);
    assert_eq!(error.to_string(), "[1] another update is in progress");
    assert_eq!(
        Error::new(code::PARSE_ERROR, "bad".into()).to_string(),
        "[-32700] bad"
    );
}

#[test]
fn identifiers_are_the_same_only_within_their_kind() {
    assert!(Id::Number(3).is(&Id::Number(3)));
    assert!(!Id::Number(3).is(&Id::Number(4)));
    assert!(!Id::Number(3).is(&Id::Text("3".into())));
    assert!(Id::Text("3".into()).is(&Id::Text("3".into()).clone()));
}

#[test]
fn nothing_is_asked_for_by_default() {
    let options = ApplyOptions::default();
    assert!(!options.dry_run && !options.interrupt_sessions);
    assert_eq!(PadPairParams::default().options, None);
    assert_eq!(ComponentId::new("daemon").as_str(), "daemon");
    assert_eq!(Phase::HealthGate.name(), "HealthGate");
}

#[test]
fn calls_name_their_methods() {
    assert_eq!(Call::Status.method(), "update.status");
    assert_eq!(Call::RobotRemoteSessionActive.method(), "robot.remoteSessionActive");
    assert!(!Call::Status.is_mutating());
    assert!(Call::SystemReboot.is_mutating());
}

/// The calls that carry nothing, which can be listed without making anything up.
#[test]
fn no_two_calls_share_a_method() {
    let calls = [
        Call::Status,
        Call::Subscribe,
        Call::RobotSafeToRestart,
        Call::RobotHealth,
        Call::RobotModelApi,
        Call::RobotRemoteSessionActive,
        Call::NetStatus,
        Call::NetScan,
        Call::SystemInfo,
        Call::SystemServices,
        Call::SystemReboot,
        Call::SystemPairingPin,
        Call::PadStatus,
        Call::PadInput,
        Call::RobotStop,
        Call::RobotShutdown,
        Call::RobotMode,
        Call::RobotInit,
        Call::RobotRelax,
        Call::ChoraleSubscribe,
        Call::TofStream,
    ];
    for (i, a) in calls.iter().enumerate() {
        for b in &calls[i + 1..] {
            assert_ne!(a.method(), b.method());
        }
    }
}
