use bacnet_mqtt_gateway::config::GatewayConfig;
use bacnet_mqtt_gateway::engine::{process_frame, BacnetEngine, BacnetEvent};
use bacnet_mqtt_gateway::poller::poller_tick;
use bacnet_mqtt_gateway::registry::{Address, DeviceRegistry};
use bacnet_mqtt_gateway::services::{OBJECT_TYPE_ANALOG_INPUT, PROP_PRESENT_VALUE};
use bacnet_mqtt_gateway::text::{
    config_topic_string, state_topic_string, u32_to_dec_string, unique_id_string,
};

fn device_addr(n: u32) -> Address {
    Address { ip: 0x0A000000 + n, port: 47808 }
}

#[test]
fn tick_over_three_devices_issues_three_distinct_reads() {
    let cfg = GatewayConfig::default();
    let mut engine = BacnetEngine::new(cfg.bacnet);
    let mut reg = DeviceRegistry::new();
    reg.upsert(7, device_addr(1));
    reg.upsert(9, device_addr(2));
    reg.upsert(11, device_addr(3));
    let snapshot = reg.snapshot();

    let requests = poller_tick(&mut engine, &snapshot);
    assert_eq!(requests.len(), 3);
    for (i, req) in requests.iter().enumerate() {
        assert_eq!(req.target, snapshot[i].address, "one read per device, in order");
    }
    assert_ne!(requests[0].invoke_id, requests[1].invoke_id);
    assert_ne!(requests[0].invoke_id, requests[2].invoke_id);
    assert_ne!(requests[1].invoke_id, requests[2].invoke_id);
    assert_eq!(engine.next_invoke_id, 4);

    // every frame is a present-value read of analog input 0
    for req in &requests {
        match process_frame(&req.frame, device_addr(0)) {
            Some(BacnetEvent::ReadProperty(r, invoke_id, _)) => {
                assert_eq!(invoke_id, req.invoke_id);
                assert_eq!(r.object_identifier.object_type, OBJECT_TYPE_ANALOG_INPUT);
                assert_eq!(r.object_identifier.instance, 0);
                assert_eq!(r.property_identifier, PROP_PRESENT_VALUE);
            }
            other => panic!("expected a property-read frame, got {:?}", other),
        }
    }
}

#[test]
fn tick_over_empty_registry_issues_nothing() {
    let cfg = GatewayConfig::default();
    let mut engine = BacnetEngine::new(cfg.bacnet);
    let reg = DeviceRegistry::new();
    let requests = poller_tick(&mut engine, &reg.snapshot());
    assert!(requests.is_empty());
    assert_eq!(engine.next_invoke_id, 1);
}

#[test]
fn tick_invoke_ids_stay_distinct_across_wrap() {
    let cfg = GatewayConfig::default();
    let mut engine = BacnetEngine::new(cfg.bacnet);
    engine.next_invoke_id = 250;
    let mut reg = DeviceRegistry::new();
    for i in 0..20u32 {
        reg.upsert(i, device_addr(i));
    }
    let requests = poller_tick(&mut engine, &reg.snapshot());
    assert_eq!(requests.len(), 20);
    for i in 0..requests.len() {
        assert_ne!(requests[i].invoke_id, 0);
        for j in (i + 1)..requests.len() {
            assert_ne!(requests[i].invoke_id, requests[j].invoke_id);
        }
    }
}

#[test]
fn decimal_text_exact_values() {
    assert_eq!(u32_to_dec_string(0), "0");
    assert_eq!(u32_to_dec_string(7), "7");
    assert_eq!(u32_to_dec_string(42), "42");
    assert_eq!(u32_to_dec_string(305), "305");
    assert_eq!(u32_to_dec_string(u32::MAX), "4294967295");
}

#[test]
fn topic_text_exact_values() {
    assert_eq!(unique_id_string(42), "bacnet_42");
    assert_eq!(state_topic_string("homeassistant", 42), "homeassistant/sensor/bacnet_42/state");
    assert_eq!(config_topic_string("ha", 7), "ha/sensor/bacnet_7/config");
}
