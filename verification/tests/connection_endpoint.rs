use bspwm_ipc::{BspwmConnection, MessageError};

/// An explicit override wins over everything.
#[test]
fn endpoint_override_wins() {
    let conn = BspwmConnection::new(Some("/run/bspwm.sock".to_string()), Some((3, 4))).unwrap();
    assert_eq!(conn.path().as_str(), "/run/bspwm.sock");
}

/// Without an override the default path is derived from the session
/// identifiers, matching the manager's own naming scheme.
#[test]
fn endpoint_default_from_session_ids() {
    let conn = BspwmConnection::new(None, Some((0, 0))).unwrap();
    assert_eq!(conn.path().as_str(), "/tmp/bspwm_0_0-socket");
    let other = BspwmConnection::new(None, Some((12, 345))).unwrap();
    assert_eq!(other.path().as_str(), "/tmp/bspwm_12_345-socket");
}

/// With neither source available no endpoint can be resolved.
#[test]
fn endpoint_unresolved_without_any_source() {
    assert_eq!(
        BspwmConnection::new(None, None).unwrap_err(),
        MessageError::EndpointUnresolved
    );
}

/// Every error names itself.
#[test]
fn errors_describe_themselves() {
    assert_eq!(
        MessageError::Status("boom".to_string()).describe(),
        "Bspwm command failed"
    );
    assert_eq!(
        MessageError::Send.describe(),
        "Network error while sending message to bspwm"
    );
    assert_eq!(
        MessageError::Receive.describe(),
        "Network error while receiving message from bspwm"
    );
    assert_eq!(
        MessageError::CommandTooLarge.describe(),
        "encoded command exceeds the transmission buffer"
    );
    assert_eq!(
        MessageError::JsonCouldntParse.describe(),
        "Got a response from bspwm but couldn't parse the JSON"
    );
}
