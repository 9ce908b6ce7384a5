use vstd::prelude::*;

use crate::registry::Address;

verus! {

/// Settings of the field-network side: the gateway's own device instance,
/// the endpoint its socket binds to, and the strings it advertises.
#[derive(Clone, Debug)]
pub struct BacnetConfig {
    pub device_id: u32,
    pub bind_addr: Address,
    pub vendor_name: String,
    pub model_name: String,
}

/// Settings of the telemetry-bus side.
#[derive(Clone, Debug)]
pub struct MqttConfig {
    pub broker_host: String,
    pub broker_port: u16,
    pub username: Option<String>,
    pub password: Option<String>,
    pub discovery_prefix: String,
    pub base_topic: String,
}

/// The whole gateway configuration.
#[derive(Clone, Debug)]
pub struct GatewayConfig {
    pub bacnet: BacnetConfig,
    pub mqtt: MqttConfig,
}

impl Default for GatewayConfig {
    /// The stock configuration: gateway device 12345 bound to the standard
    /// port on all interfaces, a local broker, and the common discovery
    /// prefix.
    fn default() -> (r: GatewayConfig)
        ensures
            r.bacnet.device_id == 12345,
            r.bacnet.bind_addr == (Address { ip: 0, port: 47808 }),
            r.bacnet.vendor_name@ == "Rust BACnet Gateway"@,
            r.bacnet.model_name@ == "MQTT Bridge V1"@,
            r.mqtt.broker_host@ == "127.0.0.1"@,
            r.mqtt.broker_port == 1883,
            r.mqtt.username is None,
            r.mqtt.password is None,
            r.mqtt.discovery_prefix@ == "homeassistant"@,
            r.mqtt.base_topic@ == "bacnet"@,
    {
        GatewayConfig {
            bacnet: BacnetConfig {
                device_id: 12345,
                bind_addr: Address { ip: 0, port: 47808 },
                vendor_name: "Rust BACnet Gateway".to_owned(),
                model_name: "MQTT Bridge V1".to_owned(),
            },
            mqtt: MqttConfig {
                broker_host: "127.0.0.1".to_owned(),
                broker_port: 1883,
                username: None,
                password: None,
                discovery_prefix: "homeassistant".to_owned(),
                base_topic: "bacnet".to_owned(),
            },
        }
    }
}

} // verus!
