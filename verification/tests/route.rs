use duck::code;
use duck::method;
use duck::proto::{
    ApplyOptions, ApplyParams, AuthenticateParams, Call, ComponentId, ComponentParams, EnableParams,
    HeadParams, HelloParams, LogParams, MoveParams, NetConnectParams, NetForgetParams,
    PadForgetParams, PadPairParams, PinParams, SelectParams, SetNameParams, SetPairingPinParams,
    SubscribeParams, Target, API_VERSION,
};
use duck::route::{destination_for, refusal, route_for, upstream_for, Lane, Route, Upstream};
use duck::version::Version;

fn component() -> ComponentId {
    ComponentId::new("daemon")
}

#[test]
fn only_these_mutating_calls_are_reachable_over_ble() {
    let mutating_and_allowed: Vec<&str> = every_call()
        .iter()
        .filter(|c| c.is_mutating() && upstream_for(c).is_some())
        .map(Call::method)
        .collect();

    assert_eq!(
        mutating_and_allowed,
        vec![
            method::APPLY,
            method::ROLLBACK,
            method::SELECT,
            method::NET_CONNECT,
            method::NET_FORGET,
            method::SYSTEM_SET_NAME,
            method::SYSTEM_REBOOT,
            method::PAD_PAIR,
            method::PAD_FORGET,
        ]
    );
}

#[test]
fn a_pad_can_be_paired_from_the_phone() {
    for call in [
        Call::PadStatus,
        Call::PadPair(PadPairParams::default()),
        Call::PadForget(PadForgetParams {
            mac: "78:86:2E:BB:13:28".into(),
        }),
    ] {
        assert_eq!(
            upstream_for(&call),
            Some(Upstream::Config),
            "{}",
            call.method()
        );
    }
}

#[test]
fn the_pairing_pin_is_not_reachable_over_ble() {
    assert_eq!(upstream_for(&Call::SystemPairingPin), None);
    assert_eq!(
        upstream_for(&Call::SystemSetPairingPin(SetPairingPinParams {
            pin: "000000".into()
        })),
        None
    );
}

#[test]
fn provisioning_reaches_configd() {
    for call in [
        Call::NetStatus,
        Call::NetScan,
        Call::NetConnect(NetConnectParams {
            ssid: "Home".into(),
            psk: None,
        }),
        Call::NetForget(NetForgetParams {
            ssid: "Home".into(),
        }),
        Call::SystemInfo,
        Call::SystemSetName(SetNameParams {
            name: "duck".into(),
        }),
        Call::SystemReboot,
    ] {
        assert_eq!(
            upstream_for(&call),
            Some(Upstream::Config),
            "{}",
            call.method()
        );
    }
}

#[test]
fn the_refused_calls_stay_refused() {
    for call in [
        Call::ResetToGolden(ComponentParams {
            component: component(),
        }),
        Call::Pin(PinParams {
            component: component(),
            version: None,
        }),
        Call::RobotSafeToRestart,
        Call::RobotModelApi,
        Call::RobotRemoteSessionActive,
    ] {
        assert_eq!(upstream_for(&call), None, "{}", call.method());
    }
}

#[test]
fn the_app_path_is_reachable() {
    let expected = [
        (
            Call::Hello(HelloParams {
                api_version: API_VERSION,
            }),
            Upstream::Updater,
        ),
        (Call::Status, Upstream::Updater),
        (Call::Subscribe, Upstream::Updater),
        (Call::RobotHealth, Upstream::Robot),
    ];
    for (call, want) in expected {
        assert_eq!(upstream_for(&call), Some(want), "{}", call.method());
    }
}

#[test]
fn a_refusal_says_permission_denied_and_names_the_method() {
    let call = Call::ResetToGolden(ComponentParams {
        component: component(),
    });
    let err = refusal(&call);

    assert_eq!(err.code, code::PERMISSION_DENIED);
    assert!(
        err.message.contains(method::RESET_TO_GOLDEN),
        "{}",
        err.message
    );
    assert_eq!(
        err.message,
        "update.resetToGolden is not available over Bluetooth; use robotctl on the robot"
    );
    assert_eq!(err.data, None);
}

#[test]
fn an_apply_shares_its_connection_with_nothing_a_client_does_during_one() {
    let apply = destination_for(&Call::Apply(ApplyParams {
        component: component(),
        target: Target::Latest,
        options: ApplyOptions::default(),
    }))
    .expect("apply is routed");

    for call in [
        Call::Status,
        Call::Subscribe,
        Call::Check(ComponentParams {
            component: component(),
        }),
    ] {
        let during = destination_for(&call).expect("routed");
        assert_eq!(during.0, apply.0, "{} is served by updaterd", call.method());
        assert_ne!(
            during.1,
            apply.1,
            "{} would queue behind an apply",
            call.method()
        );
    }
}

#[test]
fn nothing_else_travels_on_the_stream_lane() {
    let others: Vec<&str> = every_call()
        .iter()
        .filter(|c| !matches!(c, Call::Subscribe))
        .filter(|c| destination_for(c).is_some_and(|(_, lane)| lane == Lane::Stream))
        .map(Call::method)
        .collect();

    assert_eq!(others, Vec::<&str>::new());
    assert_eq!(
        destination_for(&Call::Subscribe).map(|(_, lane)| lane),
        Some(Lane::Stream)
    );
}

#[test]
fn the_calls_that_take_their_time_are_off_the_prompt_lane() {
    for call in [
        Call::Apply(ApplyParams {
            component: component(),
            target: Target::Latest,
            options: ApplyOptions::default(),
        }),
        Call::Rollback(ComponentParams {
            component: component(),
        }),
        Call::Select(SelectParams {
            component: component(),
            version: Version::new(1, 0, 0),
        }),
        Call::Check(ComponentParams {
            component: component(),
        }),
        Call::NetScan,
        Call::NetConnect(NetConnectParams {
            ssid: "Home".into(),
            psk: None,
        }),
        Call::PadPair(PadPairParams::default()),
    ] {
        let (_, lane) = destination_for(&call).expect("routed");
        assert_ne!(lane, Lane::Prompt, "{}", call.method());
    }
}

#[test]
fn going_back_is_reachable_from_the_phone() {
    for call in [
        Call::Rollback(ComponentParams {
            component: component(),
        }),
        Call::Select(SelectParams {
            component: component(),
            version: Version::new(0, 5, 1),
        }),
    ] {
        assert_eq!(
            destination_for(&call),
            Some((Upstream::Updater, Lane::Operation)),
            "{}",
            call.method()
        );
    }
}

/// The one call the transport answers itself is neither forwarded nor refused.
#[test]
fn authenticating_is_answered_here() {
    let call = Call::SystemAuthenticate(AuthenticateParams {
        pin: "000000".into(),
    });
    assert_eq!(destination_for(&call), None);
    assert_eq!(route_for(&call), Route::Local);
    assert_eq!(route_for(&Call::SystemPairingPin), Route::Refused);
    assert_eq!(
        route_for(&Call::Status),
        Route::To(Upstream::Updater, Lane::Prompt)
    );
}

/// Of everything the robot answers, only its health is reachable.
#[test]
fn nothing_that_moves_the_robot_is_reachable() {
    let reachable: Vec<&str> = every_call()
        .iter()
        .filter(|c| c.method().starts_with("robot."))
        .filter(|c| upstream_for(c).is_some())
        .map(Call::method)
        .collect();
    assert_eq!(reachable, vec![method::ROBOT_HEALTH]);
}

fn every_call() -> Vec<Call> {
    let version = Version::new(1, 4, 2);
    vec![
        Call::Hello(HelloParams {
            api_version: API_VERSION,
        }),
        Call::Check(ComponentParams {
            component: component(),
        }),
        Call::Apply(ApplyParams {
            component: component(),
            target: Target::Latest,
            options: ApplyOptions::default(),
        }),
        Call::Rollback(ComponentParams {
            component: component(),
        }),
        Call::ResetToGolden(ComponentParams {
            component: component(),
        }),
        Call::Select(SelectParams {
            component: component(),
            version: version.clone(),
        }),
        Call::Pin(PinParams {
            component: component(),
            version: Some(version),
        }),
        Call::Status,
        Call::ListInstalled(ComponentParams {
            component: component(),
        }),
        Call::Log(LogParams { limit: 20 }),
        Call::Subscribe,
        Call::RobotSafeToRestart,
        Call::RobotHealth,
        Call::RobotModelApi,
        Call::RobotRemoteSessionActive,
        Call::NetStatus,
        Call::NetScan,
        Call::NetConnect(NetConnectParams {
            ssid: "Home".into(),
            psk: Some("secret".into()),
        }),
        Call::NetForget(NetForgetParams {
            ssid: "Home".into(),
        }),
        Call::SystemInfo,
        Call::SystemSetName(SetNameParams {
            name: "duck".into(),
        }),
        Call::SystemReboot,
        Call::RobotMove(MoveParams {
            vx: 0.1f64.to_bits(),
            vy: 0.0f64.to_bits(),
            vyaw: 0.0f64.to_bits(),
        }),
        Call::RobotHead(HeadParams {
            neck_pitch: 0.0f64.to_bits(),
            head_pitch: 0.0f64.to_bits(),
            head_yaw: 0.0f64.to_bits(),
            head_roll: 0.0f64.to_bits(),
        }),
        Call::RobotStop,
        Call::RobotEnable(EnableParams {
            on: true,
            toggle: false,
        }),
        Call::RobotInit,
        Call::RobotRelax,
        Call::RobotSubscribe(SubscribeParams { hz: Some(10) }),
        Call::SystemPairingPin,
        Call::SystemSetPairingPin(SetPairingPinParams {
            pin: "000000".into(),
        }),
        Call::PadStatus,
        Call::PadPair(PadPairParams::default()),
        Call::PadForget(PadForgetParams {
            mac: "78:86:2E:BB:13:28".into(),
        }),
    ]
}
