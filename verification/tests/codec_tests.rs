use bacnet_mqtt_gateway::apdu::{decode_apdu, encode_apdu, Apdu};
use bacnet_mqtt_gateway::codec::DecodeError;
use bacnet_mqtt_gateway::npdu::{decode_npdu, encode_npdu, NetworkAddress, Npdu, NpduControl};

fn no_routing_npdu(expecting_reply: bool, priority: u8) -> Npdu {
    Npdu {
        version: 1,
        control: NpduControl {
            network_message: false,
            destination_present: false,
            source_present: false,
            expecting_reply,
            priority,
        },
        destination: None,
        source: None,
        hop_count: None,
    }
}

#[test]
fn npdu_round_trip_no_routing_preserves_flags() {
    for &expecting_reply in &[false, true] {
        for priority in 0..4u8 {
            let n = no_routing_npdu(expecting_reply, priority);
            let bytes = encode_npdu(&n);
            assert_eq!(bytes.len(), 2);
            let (decoded, consumed) = decode_npdu(&bytes).unwrap();
            assert_eq!(consumed, bytes.len());
            assert_eq!(decoded, n);
        }
    }
}

#[test]
fn npdu_encoding_exact_bytes() {
    let n = no_routing_npdu(true, 0);
    assert_eq!(encode_npdu(&n), vec![1, 0x04]);
    let n = no_routing_npdu(false, 3);
    assert_eq!(encode_npdu(&n), vec![1, 0x03]);
}

#[test]
fn npdu_decode_too_short_is_invalid_length() {
    assert_eq!(decode_npdu(&vec![]), Err(DecodeError::InvalidLength));
    assert_eq!(decode_npdu(&vec![1]), Err(DecodeError::InvalidLength));
}

#[test]
fn npdu_decode_wrong_version_fails() {
    assert_eq!(decode_npdu(&vec![2, 0]), Err(DecodeError::UnsupportedType));
}

#[test]
fn npdu_round_trip_with_routing_fields() {
    let n = Npdu {
        version: 1,
        control: NpduControl {
            network_message: false,
            destination_present: true,
            source_present: true,
            expecting_reply: false,
            priority: 0,
        },
        destination: Some(NetworkAddress { network: 0xFFFF, address: vec![] }),
        source: Some(NetworkAddress { network: 5, address: vec![10, 0, 0, 7, 0xBA, 0xC0] }),
        hop_count: Some(255),
    };
    let bytes = encode_npdu(&n);
    let (decoded, consumed) = decode_npdu(&bytes).unwrap();
    assert_eq!(consumed, bytes.len());
    assert_eq!(decoded, n);
}

#[test]
fn npdu_decode_truncated_routing_fails() {
    // destination-present flag set but no destination bytes follow
    let bytes = vec![1, 0x20, 0xFF];
    assert!(decode_npdu(&bytes).is_err());
}

#[test]
fn apdu_unconfirmed_round_trip() {
    let a = Apdu::UnconfirmedRequest { service_choice: 8, service_data: vec![9, 1, 0x19, 200] };
    let bytes = encode_apdu(&a);
    assert_eq!(bytes[0], 0x10);
    assert_eq!(decode_apdu(&bytes).unwrap(), a);
}

#[test]
fn apdu_confirmed_round_trip() {
    let a = Apdu::ConfirmedRequest {
        segmented_response_accepted: true,
        max_segments: 0,
        max_response_size: 5,
        invoke_id: 42,
        service_choice: 12,
        service_data: vec![0x0C, 0, 0, 0, 0],
    };
    let bytes = encode_apdu(&a);
    assert_eq!(&bytes[..4], &[0x02, 0x05, 42, 12]);
    assert_eq!(decode_apdu(&bytes).unwrap(), a);
}

#[test]
fn apdu_complex_ack_round_trip() {
    let a = Apdu::ComplexAck { invoke_id: 7, service_choice: 12, service_data: vec![1, 2, 3] };
    let bytes = encode_apdu(&a);
    assert_eq!(&bytes[..3], &[0x30, 7, 12]);
    assert_eq!(decode_apdu(&bytes).unwrap(), a);
}

#[test]
fn apdu_unknown_pdu_types_fail() {
    // SimpleAck, SegmentAck, Error, Reject, Abort and undefined nibbles
    for t in [2u8, 4, 5, 6, 7, 8, 15] {
        let bytes = vec![t << 4, 1, 2, 3, 4];
        assert!(decode_apdu(&bytes).is_err(), "type nibble {} must not decode", t);
    }
}

#[test]
fn apdu_segmented_frames_fail() {
    // segmented flag (0x08) on a confirmed request and on a complex ack
    assert_eq!(decode_apdu(&vec![0x08, 0x05, 1, 12, 0]), Err(DecodeError::UnsupportedType));
    assert_eq!(decode_apdu(&vec![0x38, 1, 12, 0]), Err(DecodeError::UnsupportedType));
}

#[test]
fn apdu_truncated_headers_fail() {
    assert_eq!(decode_apdu(&vec![]), Err(DecodeError::InvalidLength));
    assert_eq!(decode_apdu(&vec![0x10]), Err(DecodeError::InvalidLength));
    assert_eq!(decode_apdu(&vec![0x00, 0x05, 1]), Err(DecodeError::InvalidLength));
    assert_eq!(decode_apdu(&vec![0x30, 1]), Err(DecodeError::InvalidLength));
}
