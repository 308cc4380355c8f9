use duck::net::FakeNet;
use duck::proto::{ConnectFailure, ConnectResult, NetState, Network, Security};

#[test]
fn a_wrong_key_is_reported_as_a_wrong_key() {
    let mut net = FakeNet::new();
    let result = net.connect("Pollen", Some("wrong")).unwrap();
    assert!(matches!(
        result,
        ConnectResult::Failed {
            reason: ConnectFailure::BadKey,
            ..
        }
    ));
}

#[test]
fn a_missing_key_is_not_a_wrong_key() {
    let mut net = FakeNet::new();
    let result = net.connect("Pollen", None).unwrap();
    assert!(matches!(
        result,
        ConnectResult::Failed {
            reason: ConnectFailure::Unsupported,
            ..
        }
    ));
}

#[test]
fn an_unknown_ssid_is_not_found() {
    let mut net = FakeNet::new();
    assert!(matches!(
        net.connect("Nowhere", Some("k")).unwrap(),
        ConnectResult::Failed {
            reason: ConnectFailure::NotFound,
            ..
        }
    ));
}

#[test]
fn connecting_stores_the_network_and_forgetting_removes_it() {
    let mut net = FakeNet::new();
    assert!(net.scan().unwrap().networks.iter().all(|n| !n.saved));

    assert!(matches!(
        net.connect("Pollen", Some("correct-key")).unwrap(),
        ConnectResult::Connected { .. }
    ));

    let status = net.status().unwrap();
    assert_eq!(status.state, NetState::Connected);
    assert_eq!(status.ssid.as_deref(), Some("Pollen"));
    assert!(status.ip4.is_some(), "connected with no address");

    let saved = net.scan().unwrap();
    assert!(
        saved
            .networks
            .iter()
            .find(|n| n.ssid == "Pollen")
            .unwrap()
            .saved
    );

    assert!(net.forget("Pollen").unwrap().removed);
    assert_eq!(net.status().unwrap().state, NetState::Disconnected);
    // Forgetting again is not an error — a client must not present it as one.
    assert!(!net.forget("Pollen").unwrap().removed);
}

#[test]
fn an_open_network_joins_without_a_key() {
    let mut net = FakeNet::new();
    assert!(matches!(
        net.connect("Cafe", None).unwrap(),
        ConnectResult::Connected { .. }
    ));
    // Asking with a key is not an error either.
    assert!(matches!(
        net.connect("Cafe", Some("whatever")).unwrap(),
        ConnectResult::Connected { .. }
    ));
}

#[test]
fn scan_results_are_sorted_by_signal() {
    let net = FakeNet::new();
    let networks = net.scan().unwrap().networks;
    assert!(
        networks.windows(2).all(|w| w[0].signal >= w[1].signal),
        "{networks:?}"
    );
}

fn network(ssid: &str, signal: u8, security: Security) -> Network {
    Network {
        ssid: ssid.into(),
        signal,
        security,
        saved: false,
    }
}

/// Networks of one strength stay in the order the radio saw them.
#[test]
fn equally_strong_networks_keep_their_order() {
    let net = FakeNet::with_visible(vec![
        (network("a", 10, Security::Open), None),
        (network("b", 50, Security::Open), None),
        (network("c", 10, Security::Open), None),
        (network("d", 90, Security::Open), None),
        (network("e", 50, Security::Open), None),
    ]);
    let order: Vec<String> = net
        .scan()
        .unwrap()
        .networks
        .into_iter()
        .map(|n| n.ssid)
        .collect();
    assert_eq!(order, vec!["d", "b", "e", "a", "c"]);
}

#[test]
fn an_enterprise_network_is_unsupported_whatever_the_key() {
    let mut net = FakeNet::with_visible(vec![(
        network("Corp", 70, Security::Enterprise),
        Some("k".to_owned()),
    )]);
    assert_eq!(
        net.connect("Corp", Some("k")).unwrap(),
        ConnectResult::Failed {
            reason: ConnectFailure::Unsupported,
            detail: Some("802.1X needs a certificate flow this API does not have".into()),
        }
    );
    assert_eq!(net.status().unwrap().state, NetState::Disconnected);
    assert!(net.saved.is_empty());
}

/// A failed join leaves everything as it was, and a repeated one stores nothing twice.
#[test]
fn joining_twice_stores_once() {
    let mut net = FakeNet::new();
    let _ = net.connect("Cafe", None);
    let _ = net.connect("Pollen", Some("wrong"));
    assert_eq!(net.status().unwrap().ssid.as_deref(), Some("Cafe"));
    let _ = net.connect("Cafe", None);
    assert_eq!(net.saved, vec!["Cafe".to_owned()]);
    let _ = net.connect("Pollen", Some("correct-key"));
    assert_eq!(net.saved, vec!["Cafe".to_owned(), "Pollen".to_owned()]);
    // Forgetting the one that is not in use leaves the connection alone.
    assert!(net.forget("Cafe").unwrap().removed);
    let status = net.status().unwrap();
    assert_eq!(status.ssid.as_deref(), Some("Pollen"));
    assert_eq!(status.signal, Some(82));
    assert_eq!(status.ip4.as_deref(), Some("192.168.50.63"));
    assert_eq!(net.saved, vec!["Pollen".to_owned()]);
}
