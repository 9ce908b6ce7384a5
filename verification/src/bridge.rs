use vstd::prelude::*;

use crate::engine::{BacnetEvent, BacnetEventView};
use crate::registry::{resolve_spec, upsert_seq, DeviceRegistry, RegistryEntry};
use crate::services::{decode_real_value, parse_real, PROP_PRESENT_VALUE};
use crate::text::{
    config_topic_seq, config_topic_string, device_name_seq, device_name_string, manufacturer_seq,
    manufacturer_string, state_topic_seq, state_topic_string, unique_id_seq, unique_id_string,
};

verus! {

/// The device block of a discovery-configuration payload.
#[derive(Clone, Debug)]
pub struct HaDevice {
    pub identifiers: Vec<String>,
    pub name: String,
    pub manufacturer: String,
    pub model: String,
}

pub ghost struct HaDeviceView {
    pub identifiers: Seq<Seq<char>>,
    pub name: Seq<char>,
    pub manufacturer: Seq<char>,
    pub model: Seq<char>,
}

impl View for HaDevice {
    type V = HaDeviceView;

    open spec fn view(&self) -> HaDeviceView {
        HaDeviceView {
            identifiers: self.identifiers.deep_view(),
            name: self.name@,
            manufacturer: self.manufacturer@,
            model: self.model@,
        }
    }
}

/// The discovery-configuration payload published for each discovered
/// device.
#[derive(Clone, Debug)]
pub struct HaDiscoveryPayload {
    pub name: String,
    pub state_topic: String,
    pub command_topic: Option<String>,
    pub unique_id: String,
    pub device: HaDevice,
}

pub ghost struct HaDiscoveryPayloadView {
    pub name: Seq<char>,
    pub state_topic: Seq<char>,
    pub command_topic: Option<Seq<char>>,
    pub unique_id: Seq<char>,
    pub device: HaDeviceView,
}

impl View for HaDiscoveryPayload {
    type V = HaDiscoveryPayloadView;

    open spec fn view(&self) -> HaDiscoveryPayloadView {
        HaDiscoveryPayloadView {
            name: self.name@,
            state_topic: self.state_topic@,
            command_topic: match self.command_topic {
                Some(ref t) => Some(t@),
                None => None,
            },
            unique_id: self.unique_id@,
            device: self.device@,
        }
    }
}

/// A state value the bridge publishes: the fixed availability marker, or a
/// present-value reading carried as the raw bits of its 32-bit real. The
/// caller renders a reading as decimal text before publishing.
#[derive(Clone, Copy, PartialEq, Eq, Structural, Debug)]
pub enum StateValue {
    /// Published as the literal text `online`.
    Online,
    /// The raw bits of the 32-bit real read from a device.
    Reading(u32),
}

/// One telemetry publish the bridge asks for; every publish is retained.
#[derive(Clone, Debug)]
pub enum BridgeAction {
    /// A discovery-configuration document to serialize and publish.
    PublishConfig { topic: String, payload: HaDiscoveryPayload },
    /// A bare state text to publish.
    PublishState { topic: String, value: StateValue },
}

pub ghost enum BridgeActionView {
    PublishConfig { topic: Seq<char>, payload: HaDiscoveryPayloadView },
    PublishState { topic: Seq<char>, value: StateValue },
}

impl View for BridgeAction {
    type V = BridgeActionView;

    open spec fn view(&self) -> BridgeActionView {
        match self {
            BridgeAction::PublishConfig { topic, payload } => (BridgeActionView::PublishConfig {
                topic: topic@,
                payload: payload@,
            }),
            BridgeAction::PublishState { topic, value } => (BridgeActionView::PublishState {
                topic: topic@,
                value: *value,
            }),
        }
    }
}

impl DeepView for BridgeAction {
    type V = BridgeActionView;

    open spec fn deep_view(&self) -> BridgeActionView {
        self.view()
    }
}

/// The discovery payload a device instance and vendor number give rise to:
/// its unique identifier is `bacnet_<instance>` and its single device
/// identifier equals it.
pub open spec fn discovery_payload_spec(prefix: Seq<char>, instance: u32, vendor: u16) -> HaDiscoveryPayloadView {
    HaDiscoveryPayloadView {
        name: device_name_seq(instance),
        state_topic: state_topic_seq(prefix, instance),
        command_topic: None,
        unique_id: unique_id_seq(instance),
        device: HaDeviceView {
            identifiers: seq![unique_id_seq(instance)],
            name: device_name_seq(instance),
            manufacturer: manufacturer_seq(vendor),
            model: "Generic BACnet Device"@,
        },
    }
}

/// What an event leaves in the registry: a discovery response records its
/// sender, everything else leaves the registry alone.
pub open spec fn registry_after_event(s: Seq<RegistryEntry>, event: BacnetEventView) -> Seq<
    RegistryEntry,
> {
    match event {
        BacnetEventView::IAm(iam, source) => upsert_seq(s, iam.device_identifier.instance, source),
        _ => s,
    }
}

/// The publishes an event gives rise to, against the registry as the event
/// found it: a discovery response yields its configuration document and an
/// availability state; a present-value acknowledgment whose real value
/// decodes and whose sender resolves to a known instance yields that
/// instance's reading; everything else is logged only.
pub open spec fn bridge_actions_spec(
    s: Seq<RegistryEntry>,
    event: BacnetEventView,
    prefix: Seq<char>,
) -> Seq<BridgeActionView> {
    match event {
        BacnetEventView::IAm(iam, source) => {
            let instance = iam.device_identifier.instance;
            seq![
                BridgeActionView::PublishConfig {
                    topic: config_topic_seq(prefix, instance),
                    payload: discovery_payload_spec(prefix, instance, iam.vendor_identifier),
                },
                BridgeActionView::PublishState {
                    topic: state_topic_seq(prefix, instance),
                    value: StateValue::Online,
                },
            ]
        },
        BacnetEventView::WhoIs(_, _) => seq![],
        BacnetEventView::ReadProperty(_, _, _) => seq![],
        BacnetEventView::ReadPropertyAck(ack, _, source) => {
            if ack.property_identifier == PROP_PRESENT_VALUE {
                match parse_real(ack.property_value) {
                    Some(bits) => match resolve_spec(s, source) {
                        Some(instance) => seq![
                            BridgeActionView::PublishState {
                                topic: state_topic_seq(prefix, instance),
                                value: StateValue::Reading(bits),
                            },
                        ],
                        None => seq![],
                    },
                    None => seq![],
                }
            } else {
                seq![]
            }
        },
    }
}

/// Consumes one engine event: updates the registry and returns the
/// publishes to perform, in order. A discovery response is recorded before
/// anything is published; an acknowledgment that decodes to no real value,
/// or whose sender no registry row resolves, is dropped without a publish.
pub fn handle_event(
    registry: &mut DeviceRegistry,
    event: &BacnetEvent,
    discovery_prefix: &str,
) -> (actions: Vec<BridgeAction>)
    requires
        old(registry).wf(),
    ensures
        final(registry).wf(),
        final(registry)@ == registry_after_event(old(registry)@, event@),
        actions.deep_view() == bridge_actions_spec(old(registry)@, event@, discovery_prefix@),
{
    let mut actions: Vec<BridgeAction> = Vec::new();
    match event {
        BacnetEvent::IAm(iam, source) => {
            let instance = iam.device_identifier.instance;
            registry.upsert(instance, *source);
            let mut identifiers: Vec<String> = Vec::new();
            identifiers.push(unique_id_string(instance));
            assert(identifiers.deep_view() =~= seq![unique_id_seq(instance)]);
            let payload = HaDiscoveryPayload {
                name: device_name_string(instance),
                state_topic: state_topic_string(discovery_prefix, instance),
                command_topic: None,
                unique_id: unique_id_string(instance),
                device: HaDevice {
                    identifiers,
                    name: device_name_string(instance),
                    manufacturer: manufacturer_string(iam.vendor_identifier),
                    model: "Generic BACnet Device".to_owned(),
                },
            };
            assert(payload@ == discovery_payload_spec(
                discovery_prefix@,
                instance,
                iam.vendor_identifier,
            ));
            actions.push(
                BridgeAction::PublishConfig {
                    topic: config_topic_string(discovery_prefix, instance),
                    payload,
                },
            );
            actions.push(
                BridgeAction::PublishState {
                    topic: state_topic_string(discovery_prefix, instance),
                    value: StateValue::Online,
                },
            );
            assert(actions.deep_view() =~= bridge_actions_spec(
                old(registry)@,
                event@,
                discovery_prefix@,
            ));
        },
        BacnetEvent::WhoIs(_, _) => {
            assert(actions.deep_view() =~= bridge_actions_spec(
                old(registry)@,
                event@,
                discovery_prefix@,
            ));
        },
        BacnetEvent::ReadProperty(_, _, _) => {
            assert(actions.deep_view() =~= bridge_actions_spec(
                old(registry)@,
                event@,
                discovery_prefix@,
            ));
        },
        BacnetEvent::ReadPropertyAck(ack, _invoke_id, source) => {
            if ack.property_identifier == PROP_PRESENT_VALUE {
                match decode_real_value(&ack.property_value) {
                    Ok(bits) => {
                        match registry.resolve_address_to_instance(*source) {
                            Some(instance) => {
                                actions.push(
                                    BridgeAction::PublishState {
                                        topic: state_topic_string(discovery_prefix, instance),
                                        value: StateValue::Reading(bits),
                                    },
                                );
                            },
                            None => {},
                        }
                    },
                    Err(_) => {},
                }
            }
            assert(actions.deep_view() =~= bridge_actions_spec(
                old(registry)@,
                event@,
                discovery_prefix@,
            ));
        },
    }
    actions
}

} // verus!
