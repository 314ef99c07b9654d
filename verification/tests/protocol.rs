//! Versions of the protocol.

use pi_acp::protocol::{NegotiatedProtocol, Protocol};

#[test]
fn protocol_version_round_trips_through_u8() {
    assert_eq!(Protocol::V1.as_u8(), 1);
    assert_eq!(Protocol::V2.as_u8(), 2);
    assert_eq!(Protocol::from_u8(1), Protocol::V1);
    assert_eq!(Protocol::from_u8(2), Protocol::V2);
    // Anything else is not a known version; v1 is the safe default.
    assert_eq!(Protocol::from_u8(0), Protocol::V1);
    assert_eq!(Protocol::from_u8(9), Protocol::V1);
    assert!(!Protocol::V1.is_v2());
    assert!(Protocol::V2.is_v2());
}

#[test]
fn negotiated_protocol_defaults_to_v1_and_records_changes() {
    let mut negotiated = NegotiatedProtocol::new();
    assert_eq!(negotiated.get(), Protocol::V1);
    negotiated.set(Protocol::V2);
    assert_eq!(negotiated.get(), Protocol::V2);
    negotiated.set(Protocol::V1);
    assert_eq!(negotiated.get(), Protocol::V1);
}
