use bacnet_mqtt_gateway::codec::DecodeError;
use bacnet_mqtt_gateway::services::{
    decode_iam, decode_read_property, decode_read_property_ack, decode_real_value, decode_whois,
    encode_iam, encode_read_property, encode_read_property_ack, encode_real_value, encode_whois,
    IAm, InstanceRange, ObjectIdentifier, ReadPropertyAck, ReadPropertyRequest, WhoIs,
    OBJECT_TYPE_ANALOG_INPUT, OBJECT_TYPE_DEVICE, PROP_PRESENT_VALUE,
};

#[test]
fn whois_round_trip_no_range() {
    let w = WhoIs { range: None };
    let bytes = encode_whois(&w);
    assert!(bytes.is_empty());
    assert_eq!(decode_whois(&bytes).unwrap(), w);
}

#[test]
fn whois_round_trip_with_range() {
    for &(low, high) in
        &[(0u32, 0u32), (100, 200), (255, 256), (65535, 65536), (0x3FFFFF, 0x3FFFFF)]
    {
        let w = WhoIs { range: Some(InstanceRange { low, high }) };
        let bytes = encode_whois(&w);
        assert_eq!(decode_whois(&bytes).unwrap(), w, "range {}..{}", low, high);
    }
}

#[test]
fn whois_encoding_exact_bytes() {
    // minimal-length unsigned encodings under context tags 0 and 1
    let w = WhoIs { range: Some(InstanceRange { low: 255, high: 256 }) };
    assert_eq!(encode_whois(&w), vec![0x09, 0xFF, 0x1A, 0x01, 0x00]);
    let w = WhoIs { range: Some(InstanceRange { low: 0, high: 0x123456 }) };
    assert_eq!(encode_whois(&w), vec![0x09, 0x00, 0x1B, 0x12, 0x34, 0x56]);
}

#[test]
fn whois_low_without_high_fails() {
    // a lone context-0 limit is malformed
    let bytes = vec![0x09, 0x05];
    assert!(decode_whois(&bytes).is_err());
}

#[test]
fn iam_round_trip() {
    let i = IAm {
        device_identifier: ObjectIdentifier { object_type: OBJECT_TYPE_DEVICE, instance: 99999 },
        max_apdu_length_accepted: 1476,
        segmentation_supported: 3,
        vendor_identifier: 260,
    };
    let bytes = encode_iam(&i);
    assert_eq!(decode_iam(&bytes).unwrap(), i);
}

#[test]
fn iam_encoding_exact_bytes() {
    let i = IAm {
        device_identifier: ObjectIdentifier { object_type: OBJECT_TYPE_DEVICE, instance: 42 },
        max_apdu_length_accepted: 1476,
        segmentation_supported: 3,
        vendor_identifier: 15,
    };
    // object id word = 8 << 22 | 42 = 0x0200002A
    assert_eq!(
        encode_iam(&i),
        vec![0xC4, 0x02, 0x00, 0x00, 0x2A, 0x22, 0x05, 0xC4, 0x91, 0x03, 0x21, 0x0F]
    );
}

#[test]
fn iam_bad_segmentation_fails() {
    let i = IAm {
        device_identifier: ObjectIdentifier { object_type: OBJECT_TYPE_DEVICE, instance: 1 },
        max_apdu_length_accepted: 50,
        segmentation_supported: 3,
        vendor_identifier: 1,
    };
    let mut bytes = encode_iam(&i);
    // patch the enumerated segmentation value to 4, outside its range
    let pos = bytes.len() - 3;
    bytes[pos] = 4;
    assert!(decode_iam(&bytes).is_err());
}

#[test]
fn read_property_round_trip() {
    let r = ReadPropertyRequest {
        object_identifier: ObjectIdentifier { object_type: OBJECT_TYPE_ANALOG_INPUT, instance: 0 },
        property_identifier: PROP_PRESENT_VALUE,
        property_array_index: None,
    };
    let bytes = encode_read_property(&r);
    assert_eq!(bytes, vec![0x0C, 0, 0, 0, 0, 0x19, 0x55]);
    assert_eq!(decode_read_property(&bytes).unwrap(), r);

    let r = ReadPropertyRequest {
        object_identifier: ObjectIdentifier { object_type: 1, instance: 5 },
        property_identifier: PROP_PRESENT_VALUE,
        property_array_index: Some(3),
    };
    let bytes = encode_read_property(&r);
    assert_eq!(decode_read_property(&bytes).unwrap(), r);
}

#[test]
fn read_property_truncated_fails() {
    let r = ReadPropertyRequest {
        object_identifier: ObjectIdentifier { object_type: 0, instance: 0 },
        property_identifier: PROP_PRESENT_VALUE,
        property_array_index: None,
    };
    let bytes = encode_read_property(&r);
    for n in 0..bytes.len() {
        let prefix: Vec<u8> = bytes[..n].to_vec();
        assert!(decode_read_property(&prefix).is_err(), "prefix of {} bytes", n);
    }
}

#[test]
fn read_property_ack_round_trip_real_value() {
    let a = ReadPropertyAck {
        object_identifier: ObjectIdentifier { object_type: OBJECT_TYPE_ANALOG_INPUT, instance: 0 },
        property_identifier: PROP_PRESENT_VALUE,
        property_array_index: None,
        property_value: encode_real_value(24.5f32.to_bits()),
    };
    let bytes = encode_read_property_ack(&a);
    assert_eq!(decode_read_property_ack(&bytes).unwrap(), a);
}

#[test]
fn read_property_ack_round_trip_opaque_value() {
    // a non-real primitive (unsigned 2 bytes) passes through as raw bytes
    let a = ReadPropertyAck {
        object_identifier: ObjectIdentifier { object_type: 2, instance: 11 },
        property_identifier: 28,
        property_array_index: Some(1),
        property_value: vec![0x22, 0x01, 0x02],
    };
    let bytes = encode_read_property_ack(&a);
    let decoded = decode_read_property_ack(&bytes).unwrap();
    assert_eq!(decoded, a);
    assert_eq!(decode_real_value(&decoded.property_value), Err(DecodeError::InvalidLength));
}

#[test]
fn read_property_ack_missing_closing_tag_fails() {
    let a = ReadPropertyAck {
        object_identifier: ObjectIdentifier { object_type: 0, instance: 0 },
        property_identifier: PROP_PRESENT_VALUE,
        property_array_index: None,
        property_value: encode_real_value(0),
    };
    let mut bytes = encode_read_property_ack(&a);
    bytes.pop();
    assert!(decode_read_property_ack(&bytes).is_err());
}

#[test]
fn real_value_exact_bytes_and_round_trip() {
    let bits = 24.5f32.to_bits();
    assert_eq!(bits, 0x41C40000);
    let bytes = encode_real_value(bits);
    assert_eq!(bytes, vec![0x44, 0x41, 0xC4, 0x00, 0x00]);
    assert_eq!(decode_real_value(&bytes).unwrap(), bits);
    assert_eq!(f32::from_bits(decode_real_value(&bytes).unwrap()), 24.5f32);
}

#[test]
fn real_value_wrong_tag_fails() {
    // an unsigned tag where a real is expected
    let bytes = vec![0x24, 0x41, 0xC4, 0x00, 0x00];
    assert_eq!(decode_real_value(&bytes), Err(DecodeError::InvalidTag));
}
