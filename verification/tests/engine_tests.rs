use bacnet_mqtt_gateway::apdu::{encode_apdu, Apdu};
use bacnet_mqtt_gateway::config::GatewayConfig;
use bacnet_mqtt_gateway::engine::{process_frame, BacnetEngine, BacnetEvent};
use bacnet_mqtt_gateway::npdu::{encode_npdu, Npdu};
use bacnet_mqtt_gateway::registry::Address;
use bacnet_mqtt_gateway::services::{
    encode_iam, encode_read_property_ack, encode_real_value, IAm, ObjectIdentifier,
    ReadPropertyAck, ObjectIdentifier as Oid, OBJECT_TYPE_ANALOG_INPUT, OBJECT_TYPE_DEVICE,
    PROP_PRESENT_VALUE, SERVICE_CHOICE_I_AM, SERVICE_CHOICE_READ_PROPERTY,
};

fn source() -> Address {
    Address { ip: 0x0A000007, port: 47808 }
}

fn frame_of(apdu: &Apdu) -> Vec<u8> {
    let mut frame = encode_npdu(&Npdu::new());
    frame.extend_from_slice(&encode_apdu(apdu));
    frame
}

fn iam_frame(instance: u32, vendor: u16) -> Vec<u8> {
    let iam = IAm {
        device_identifier: ObjectIdentifier { object_type: OBJECT_TYPE_DEVICE, instance },
        max_apdu_length_accepted: 1476,
        segmentation_supported: 0,
        vendor_identifier: vendor,
    };
    frame_of(&Apdu::UnconfirmedRequest {
        service_choice: SERVICE_CHOICE_I_AM,
        service_data: encode_iam(&iam),
    })
}

fn ack_frame(invoke_id: u8, value_bits: u32) -> Vec<u8> {
    let ack = ReadPropertyAck {
        object_identifier: Oid { object_type: OBJECT_TYPE_ANALOG_INPUT, instance: 0 },
        property_identifier: PROP_PRESENT_VALUE,
        property_array_index: None,
        property_value: encode_real_value(value_bits),
    };
    frame_of(&Apdu::ComplexAck {
        invoke_id,
        service_choice: SERVICE_CHOICE_READ_PROPERTY,
        service_data: encode_read_property_ack(&ack),
    })
}

#[test]
fn discover_frame_exact_bytes() {
    let cfg = GatewayConfig::default();
    let engine = BacnetEngine::new(cfg.bacnet);
    // version 1, control 0, unconfirmed request, device-discovery choice
    assert_eq!(engine.discover(), vec![0x01, 0x00, 0x10, 0x08]);
}

#[test]
fn read_property_frame_exact_bytes_and_invoke_ids() {
    let cfg = GatewayConfig::default();
    let mut engine = BacnetEngine::new(cfg.bacnet);
    let target = Oid { object_type: OBJECT_TYPE_ANALOG_INPUT, instance: 0 };
    let (frame, id) = engine.read_property(target, PROP_PRESENT_VALUE);
    assert_eq!(id, 1);
    assert_eq!(engine.next_invoke_id, 2);
    assert_eq!(
        frame,
        vec![
            0x01, 0x04, // version, expecting-reply
            0x02, 0x05, 0x01, 0x0C, // confirmed header: flags, max sizes, invoke, choice
            0x0C, 0x00, 0x00, 0x00, 0x00, // object identifier, context tag 0
            0x19, 0x55, // present-value, context tag 1
        ]
    );
    let (_, id2) = engine.read_property(target, PROP_PRESENT_VALUE);
    assert_eq!(id2, 2);
}

#[test]
fn invoke_id_wraps_from_255_to_1_and_skips_0() {
    let cfg = GatewayConfig::default();
    let mut engine = BacnetEngine::new(cfg.bacnet);
    engine.next_invoke_id = 255;
    let target = Oid { object_type: OBJECT_TYPE_ANALOG_INPUT, instance: 0 };
    let (_, id) = engine.read_property(target, PROP_PRESENT_VALUE);
    assert_eq!(id, 255);
    assert_eq!(engine.next_invoke_id, 1);
    for _ in 0..600 {
        let (_, id) = engine.read_property(target, PROP_PRESENT_VALUE);
        assert_ne!(id, 0);
    }
}

#[test]
fn discover_frame_decodes_to_whois_event() {
    let cfg = GatewayConfig::default();
    let engine = BacnetEngine::new(cfg.bacnet);
    let frame = engine.discover();
    match process_frame(&frame, source()) {
        Some(BacnetEvent::WhoIs(w, src)) => {
            assert_eq!(w.range, None);
            assert_eq!(src, source());
        }
        other => panic!("expected a discovery event, got {:?}", other),
    }
}

#[test]
fn iam_frame_decodes_to_iam_event() {
    let frame = iam_frame(42, 15);
    match process_frame(&frame, source()) {
        Some(BacnetEvent::IAm(i, src)) => {
            assert_eq!(i.device_identifier.instance, 42);
            assert_eq!(i.device_identifier.object_type, OBJECT_TYPE_DEVICE);
            assert_eq!(i.vendor_identifier, 15);
            assert_eq!(src, source());
        }
        other => panic!("expected a discovery response event, got {:?}", other),
    }
}

#[test]
fn read_property_request_frame_decodes_to_event() {
    let cfg = GatewayConfig::default();
    let mut engine = BacnetEngine::new(cfg.bacnet);
    let target = Oid { object_type: OBJECT_TYPE_ANALOG_INPUT, instance: 0 };
    let (frame, id) = engine.read_property(target, PROP_PRESENT_VALUE);
    match process_frame(&frame, source()) {
        Some(BacnetEvent::ReadProperty(req, invoke_id, _)) => {
            assert_eq!(invoke_id, id);
            assert_eq!(req.object_identifier, target);
            assert_eq!(req.property_identifier, PROP_PRESENT_VALUE);
            assert_eq!(req.property_array_index, None);
        }
        other => panic!("expected a property-read event, got {:?}", other),
    }
}

#[test]
fn ack_frame_decodes_to_ack_event() {
    let frame = ack_frame(9, 24.5f32.to_bits());
    match process_frame(&frame, source()) {
        Some(BacnetEvent::ReadPropertyAck(ack, invoke_id, src)) => {
            assert_eq!(invoke_id, 9);
            assert_eq!(ack.property_identifier, PROP_PRESENT_VALUE);
            assert_eq!(src, source());
        }
        other => panic!("expected an acknowledgment event, got {:?}", other),
    }
}

#[test]
fn network_layer_messages_yield_no_event() {
    // control byte with the network-message bit set, then plausible bytes
    let frame = vec![0x01, 0x80, 0x10, 0x08];
    assert!(process_frame(&frame, source()).is_none());
}

#[test]
fn truncated_frames_yield_no_event() {
    for full in [iam_frame(7, 1), ack_frame(3, 0x41C40000)] {
        for n in 0..full.len() {
            let prefix: Vec<u8> = full[..n].to_vec();
            assert!(
                process_frame(&prefix, source()).is_none(),
                "a {}-byte prefix of a {}-byte frame must yield nothing",
                n,
                full.len()
            );
        }
    }
}

#[test]
fn random_frames_yield_no_event_and_no_panic() {
    // a deterministic pseudo-random stream; the first byte is forced away
    // from the protocol version so no frame can be a valid header
    let mut state: u32 = 0x12345678;
    let mut next = move || {
        state = state.wrapping_mul(1664525).wrapping_add(1013904223);
        (state >> 24) as u8
    };
    for len in 0..200usize {
        let mut frame: Vec<u8> = (0..len).map(|_| next()).collect();
        if !frame.is_empty() && frame[0] == 1 {
            frame[0] = 2;
        }
        assert!(process_frame(&frame, source()).is_none());
    }
}

#[test]
fn unknown_service_choices_yield_no_event() {
    // unconfirmed service 5 and confirmed service 1 are not recognized
    let f1 = frame_of(&Apdu::UnconfirmedRequest { service_choice: 5, service_data: vec![] });
    assert!(process_frame(&f1, source()).is_none());
    let f2 = frame_of(&Apdu::ConfirmedRequest {
        segmented_response_accepted: true,
        max_segments: 0,
        max_response_size: 5,
        invoke_id: 1,
        service_choice: 1,
        service_data: vec![],
    });
    assert!(process_frame(&f2, source()).is_none());
    let f3 = frame_of(&Apdu::ComplexAck { invoke_id: 1, service_choice: 3, service_data: vec![] });
    assert!(process_frame(&f3, source()).is_none());
}

#[test]
fn default_config_values() {
    let cfg = GatewayConfig::default();
    assert_eq!(cfg.bacnet.device_id, 12345);
    assert_eq!(cfg.bacnet.bind_addr, Address { ip: 0, port: 47808 });
    assert_eq!(cfg.bacnet.vendor_name, "Rust BACnet Gateway");
    assert_eq!(cfg.bacnet.model_name, "MQTT Bridge V1");
    assert_eq!(cfg.mqtt.broker_host, "127.0.0.1");
    assert_eq!(cfg.mqtt.broker_port, 1883);
    assert_eq!(cfg.mqtt.username, None);
    assert_eq!(cfg.mqtt.password, None);
    assert_eq!(cfg.mqtt.discovery_prefix, "homeassistant");
    assert_eq!(cfg.mqtt.base_topic, "bacnet");
}
