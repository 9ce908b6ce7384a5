//! Cross-checks of this library's codecs against the bacnet-rs
//! implementation of the same wire formats.

use bacnet_mqtt_gateway::config::GatewayConfig;
use bacnet_mqtt_gateway::engine::BacnetEngine;
use bacnet_mqtt_gateway::npdu::{decode_npdu, encode_npdu, Npdu, NpduControl};
use bacnet_mqtt_gateway::services::{
    decode_iam, encode_whois, InstanceRange, ObjectIdentifier, WhoIs, OBJECT_TYPE_ANALOG_INPUT,
    OBJECT_TYPE_DEVICE, PROP_PRESENT_VALUE,
};

#[test]
fn whois_encoding_matches_reference_implementation() {
    for range in [None, Some((0u32, 4_194_303u32)), Some((100, 200))] {
        let ours = encode_whois(&WhoIs {
            range: range.map(|(low, high)| InstanceRange { low, high }),
        });
        let reference = bacnet_rs::service::WhoIsRequest {
            device_instance_range_low_limit: range.map(|r| r.0),
            device_instance_range_high_limit: range.map(|r| r.1),
        };
        let mut theirs = Vec::new();
        reference.encode(&mut theirs).unwrap();
        assert_eq!(ours, theirs, "range {:?}", range);
    }
}

#[test]
fn npdu_encoding_matches_reference_implementation() {
    for expecting_reply in [false, true] {
        let ours = encode_npdu(&Npdu {
            version: 1,
            control: NpduControl {
                network_message: false,
                destination_present: false,
                source_present: false,
                expecting_reply,
                priority: 0,
            },
            destination: None,
            source: None,
            hop_count: None,
        });
        let mut reference = bacnet_rs::network::Npdu::new();
        reference.control.expecting_reply = expecting_reply;
        reference.control.priority = 0;
        assert_eq!(ours, reference.encode());
    }
}

#[test]
fn npdu_with_routing_decodes_like_reference_implementation() {
    let reference = bacnet_rs::network::Npdu::global_broadcast();
    let bytes = reference.encode();
    let (ours, consumed) = decode_npdu(&bytes).unwrap();
    let (theirs, reference_consumed) = bacnet_rs::network::Npdu::decode(&bytes).unwrap();
    assert_eq!(consumed, reference_consumed);
    assert_eq!(ours.control.destination_present, theirs.control.destination_present);
    assert_eq!(ours.hop_count, theirs.hop_count);
    assert_eq!(ours.destination.as_ref().unwrap().network, 0xFFFF);
}

#[test]
fn read_property_frame_decodes_with_reference_implementation() {
    let cfg = GatewayConfig::default();
    let mut engine = BacnetEngine::new(cfg.bacnet);
    let target = ObjectIdentifier { object_type: OBJECT_TYPE_ANALOG_INPUT, instance: 0 };
    let (frame, invoke_id) = engine.read_property(target, PROP_PRESENT_VALUE);

    let (_, consumed) = bacnet_rs::network::Npdu::decode(&frame).unwrap();
    let apdu = bacnet_rs::app::Apdu::decode(&frame[consumed..]).unwrap();
    match apdu {
        bacnet_rs::app::Apdu::ConfirmedRequest {
            invoke_id: their_id,
            service_choice,
            service_data,
            segmented,
            ..
        } => {
            assert_eq!(their_id, invoke_id);
            assert!(!segmented);
            assert_eq!(
                service_choice,
                bacnet_rs::service::ConfirmedServiceChoice::ReadProperty
            );
            let req = bacnet_rs::service::ReadPropertyRequest::decode(&service_data).unwrap();
            assert_eq!(req.object_identifier.instance, 0);
            assert_eq!(
                req.property_identifier,
                bacnet_rs::object::PropertyIdentifier::PresentValue
            );
            assert_eq!(req.property_array_index, None);
        }
        other => panic!("the reference implementation saw {:?}", other),
    }
}

#[test]
fn reference_iam_decodes_with_this_library() {
    let reference = bacnet_rs::service::IAmRequest {
        device_identifier: bacnet_rs::object::ObjectIdentifier::new(
            bacnet_rs::object::ObjectType::Device,
            99999,
        ),
        max_apdu_length_accepted: 1476,
        segmentation_supported: bacnet_rs::object::Segmentation::NoSegmentation,
        vendor_identifier: 260,
    };
    let mut bytes = Vec::new();
    reference.encode(&mut bytes).unwrap();
    let ours = decode_iam(&bytes).unwrap();
    assert_eq!(ours.device_identifier.object_type, OBJECT_TYPE_DEVICE);
    assert_eq!(ours.device_identifier.instance, 99999);
    assert_eq!(ours.max_apdu_length_accepted, 1476);
    assert_eq!(ours.segmentation_supported, 3);
    assert_eq!(ours.vendor_identifier, 260);
}

#[test]
fn discover_frame_decodes_with_reference_implementation() {
    let cfg = GatewayConfig::default();
    let engine = BacnetEngine::new(cfg.bacnet);
    let frame = engine.discover();
    let (npdu, consumed) = bacnet_rs::network::Npdu::decode(&frame).unwrap();
    assert!(!npdu.is_network_message());
    let apdu = bacnet_rs::app::Apdu::decode(&frame[consumed..]).unwrap();
    match apdu {
        bacnet_rs::app::Apdu::UnconfirmedRequest { service_choice, service_data } => {
            assert_eq!(
                service_choice,
                bacnet_rs::service::UnconfirmedServiceChoice::WhoIs
            );
            let w = bacnet_rs::service::WhoIsRequest::decode(&service_data).unwrap();
            assert_eq!(w.device_instance_range_low_limit, None);
            assert_eq!(w.device_instance_range_high_limit, None);
        }
        other => panic!("the reference implementation saw {:?}", other),
    }
}
