use duck::code;
use duck::gatt::{
    acknowledges, advertised_name, plan, read_value, Enqueued, Slot, REQUEST_UUID, RESPONSE_UUID,
    SERVICE_UUID,
};
use duck::pairing::{passkey, pin, PinReply};
use duck::proto::{Error, PairingPinResult};

#[test]
fn the_uuids_are_distinct() {
    let all = [SERVICE_UUID, REQUEST_UUID, RESPONSE_UUID];
    for (i, a) in all.iter().enumerate() {
        for b in &all[i + 1..] {
            assert_ne!(a, b);
        }
    }
}

/// The values a client scans for.
#[test]
fn the_uuids_are_the_published_ones() {
    for (value, text) in [
        (SERVICE_UUID, "6f5d2a10-3b47-4c8e-9a1f-2d7e8c4b6019"),
        (REQUEST_UUID, "6f5d2a11-3b47-4c8e-9a1f-2d7e8c4b6019"),
        (RESPONSE_UUID, "6f5d2a12-3b47-4c8e-9a1f-2d7e8c4b6019"),
    ] {
        assert_eq!(uuid::Uuid::from_u128(value).to_string(), text);
    }
}

#[test]
fn a_pin_with_leading_zeros_is_the_right_passkey() {
    for (pin, expected) in [
        ("000000", 0u32),
        ("000042", 42),
        ("123456", 123456),
        ("999999", 999999),
    ] {
        assert_eq!(passkey(pin).unwrap(), expected, "{pin}");
    }
}

/// A passkey is read as the standard library reads a number.
#[test]
fn a_pin_is_read_as_a_number() {
    for text in [
        "0", "+7", "+", "", "-1", "12a", " 1", "1 ", "4294967295", "4294967296", "00000000000000001",
        "99999999999999999999999999", "é", "+-1", "++1",
    ] {
        assert_eq!(passkey(text).ok(), text.parse::<u32>().ok(), "{text}");
    }
}

/// The PIN itself is never in the complaint, and its length is counted in bytes.
#[test]
fn a_pin_that_is_no_number_is_not_repeated() {
    assert_eq!(
        passkey("secret").unwrap_err(),
        "configd returned a PIN that is not a number: 6 chars"
    );
    assert_eq!(
        passkey("é").unwrap_err(),
        "configd returned a PIN that is not a number: 2 chars"
    );
}

#[test]
fn an_absent_configd_fails_rather_than_hanging() {
    let err = pin(PinReply::Unreachable {
        socket: "/tmp/absent.sock".into(),
        why: "No such file or directory (os error 2)".into(),
    })
    .unwrap_err();
    assert!(err.contains("cannot reach configd"), "{err}");
    assert_eq!(
        pin(PinReply::TimedOut).unwrap_err(),
        "configd did not answer in time"
    );
    assert_eq!(
        pin(PinReply::Closed).unwrap_err(),
        "configd closed the connection without answering"
    );
    assert_eq!(pin(PinReply::Broken("eof".into())).unwrap_err(), "eof");
}

#[test]
fn the_pin_is_fetched_over_the_socket() {
    let answer = PinReply::Pin(PairingPinResult {
        pin: "000042".into(),
        is_default: false,
    });
    assert_eq!(pin(answer).unwrap(), 42);
}

#[test]
fn a_refusal_is_not_treated_as_a_default_pin() {
    let err = pin(PinReply::Refused(Error::new(
        code::PERMISSION_DENIED,
        "nope".into(),
    )))
    .unwrap_err();
    assert!(err.contains("refused"), "{err}");
    assert_eq!(err, "configd refused: [14] nope");
}

#[test]
fn pairing_protects_both_directions() {
    let secure = plan(true);
    assert!(secure.pairable && secure.agent);
    assert!(secure.encrypt_authenticated_read && secure.encrypt_authenticated_write);
    let open = plan(false);
    assert!(!open.pairable && !open.agent);
    assert!(!open.encrypt_authenticated_read && !open.encrypt_authenticated_write);
    assert!(open.write && open.write_without_response && open.notify);
    assert_eq!(read_value(), vec![2u8]);
}

#[test]
fn a_piece_the_session_did_not_take_is_refused() {
    assert!(acknowledges(Enqueued::Taken));
    assert!(!acknowledges(Enqueued::Full));
    assert!(!acknowledges(Enqueued::Closed));
}

/// One central at a time, and the next one once it has gone.
#[test]
fn a_subscription_is_held_by_one_central() {
    let mut slot = Slot::new("feed");
    assert_eq!(slot.subscribe(), Some("feed"));
    assert_eq!(slot.subscribe(), None);
    slot.unsubscribe("feed");
    assert_eq!(slot.subscribe(), Some("feed"));
}

#[test]
fn the_robot_is_advertised_under_its_hostname() {
    assert_eq!(advertised_name(Some("duck-7\n")), "duck-7");
    assert_eq!(advertised_name(Some("\u{2003} duck \t")), "duck");
    assert_eq!(advertised_name(Some("  \n")), "robot");
    assert_eq!(advertised_name(None), "robot");
}
