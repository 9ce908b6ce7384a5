use vstd::prelude::*;

use crate::apdu::{decode_apdu, enc_apdu, encode_apdu, parse_apdu, Apdu, ApduView};
use crate::codec::copy_range;
use crate::config::BacnetConfig;
use crate::npdu::{decode_npdu, enc_npdu, encode_npdu, parse_npdu, Npdu, NpduControl, NpduView};
use crate::registry::Address;
use crate::services::{
    decode_iam, decode_read_property, decode_read_property_ack, decode_whois, enc_iam,
    enc_read_property, enc_read_property_ack, enc_whois, encode_read_property, encode_whois,
    parse_iam, parse_read_property, parse_read_property_ack, parse_whois, IAm, ObjectIdentifier,
    ReadPropertyAck, ReadPropertyAckView, ReadPropertyRequest, WhoIs, SERVICE_CHOICE_I_AM,
    SERVICE_CHOICE_READ_PROPERTY, SERVICE_CHOICE_WHO_IS,
};

verus! {

/// What the receive path hands to the bridge: one recognized message with
/// its source address, and the correlating invoke identifier where the
/// layer carries one.
#[derive(Clone, Debug)]
pub enum BacnetEvent {
    WhoIs(WhoIs, Address),
    IAm(IAm, Address),
    ReadProperty(ReadPropertyRequest, u8, Address),
    ReadPropertyAck(ReadPropertyAck, u8, Address),
}

pub ghost enum BacnetEventView {
    WhoIs(WhoIs, Address),
    IAm(IAm, Address),
    ReadProperty(ReadPropertyRequest, u8, Address),
    ReadPropertyAck(ReadPropertyAckView, u8, Address),
}

impl View for BacnetEvent {
    type V = BacnetEventView;

    open spec fn view(&self) -> BacnetEventView {
        match self {
            BacnetEvent::WhoIs(w, a) => BacnetEventView::WhoIs(*w, *a),
            BacnetEvent::IAm(i, a) => BacnetEventView::IAm(*i, *a),
            BacnetEvent::ReadProperty(r, id, a) => BacnetEventView::ReadProperty(*r, *id, *a),
            BacnetEvent::ReadPropertyAck(ack, id, a) => BacnetEventView::ReadPropertyAck(
                ack@,
                *id,
                *a,
            ),
        }
    }
}

/// The network-layer header of this engine's own traffic: version 1, no
/// routing, priority zero.
pub open spec fn local_npdu(expecting_reply: bool) -> NpduView {
    NpduView {
        version: 1,
        control: NpduControl {
            network_message: false,
            destination_present: false,
            source_present: false,
            expecting_reply,
            priority: 0,
        },
        destination: None,
        source: None,
        hop_count: None,
    }
}

/// The discovery broadcast frame: a rangeless device-discovery request in an
/// unconfirmed envelope, expecting no reply.
pub open spec fn discover_frame() -> Seq<u8> {
    enc_npdu(local_npdu(false)) + enc_apdu(
        ApduView::UnconfirmedRequest {
            service_choice: SERVICE_CHOICE_WHO_IS,
            service_data: enc_whois(WhoIs { range: None }),
        },
    )
}

/// The unicast frame of a confirmed single-property read: expecting a
/// reply, unsegmented, segmented responses accepted up to the largest
/// message size.
pub open spec fn read_property_frame(
    invoke_id: u8,
    object_identifier: ObjectIdentifier,
    property_identifier: u32,
) -> Seq<u8>
    recommends
        object_identifier.wf(),
{
    enc_npdu(local_npdu(true)) + enc_apdu(
        ApduView::ConfirmedRequest {
            segmented_response_accepted: true,
            max_segments: 0,
            max_response_size: 5,
            invoke_id,
            service_choice: SERVICE_CHOICE_READ_PROPERTY,
            service_data: enc_read_property(
                ReadPropertyRequest {
                    object_identifier,
                    property_identifier,
                    property_array_index: None,
                },
            ),
        },
    )
}

/// The one event a frame decodes to, if any. Network-layer control frames,
/// frames whose headers or bodies fail to parse, and service choices this
/// engine does not recognize all decode to nothing.
pub open spec fn event_of_frame(frame: Seq<u8>, source: Address) -> Option<BacnetEventView> {
    match parse_npdu(frame) {
        None => None,
        Some((npdu, consumed)) => {
            if npdu.control.network_message || frame.len() <= consumed {
                None
            } else {
                match parse_apdu(frame.skip(consumed)) {
                    None => None,
                    Some(apdu) => match apdu {
                        ApduView::UnconfirmedRequest { service_choice, service_data } => {
                            if service_choice == SERVICE_CHOICE_WHO_IS {
                                match parse_whois(service_data) {
                                    Some(w) => Some(BacnetEventView::WhoIs(w, source)),
                                    None => None,
                                }
                            } else if service_choice == SERVICE_CHOICE_I_AM {
                                match parse_iam(service_data) {
                                    Some(i) => Some(BacnetEventView::IAm(i, source)),
                                    None => None,
                                }
                            } else {
                                None
                            }
                        },
                        ApduView::ConfirmedRequest {
                            invoke_id,
                            service_choice,
                            service_data,
                            ..
                        } => {
                            if service_choice == SERVICE_CHOICE_READ_PROPERTY {
                                match parse_read_property(service_data) {
                                    Some(req) => Some(
                                        BacnetEventView::ReadProperty(req, invoke_id, source),
                                    ),
                                    None => None,
                                }
                            } else {
                                None
                            }
                        },
                        ApduView::ComplexAck { invoke_id, service_choice, service_data } => {
                            if service_choice == SERVICE_CHOICE_READ_PROPERTY {
                                match parse_read_property_ack(service_data) {
                                    Some(a) => Some(
                                        BacnetEventView::ReadPropertyAck(a, invoke_id, source),
                                    ),
                                    None => None,
                                }
                            } else {
                                None
                            }
                        },
                    },
                }
            }
        },
    }
}

/// Decodes one received frame into at most one event. Anything malformed,
/// truncated or unrecognized yields nothing, never a panic: the socket is
/// shared with arbitrary network noise, so the receive path must shrug off
/// adversarial bytes.
pub fn process_frame(frame: &Vec<u8>, source: Address) -> (r: Option<BacnetEvent>)
    ensures
        match r {
            Some(e) => event_of_frame(frame@, source) == Some(e@),
            None => event_of_frame(frame@, source) is None,
        },
{
    let (npdu, consumed) = match decode_npdu(frame) {
        Ok(x) => x,
        Err(_) => {
            return None;
        },
    };
    if npdu.is_network_message() {
        return None;
    }
    if frame.len() <= consumed {
        return None;
    }
    let apdu_bytes = copy_range(frame, consumed, frame.len());
    proof {
        assert(apdu_bytes@ =~= frame@.skip(consumed as int));
    }
    let apdu = match decode_apdu(&apdu_bytes) {
        Ok(a) => a,
        Err(_) => {
            return None;
        },
    };
    match apdu {
        Apdu::UnconfirmedRequest { service_choice, service_data } => {
            if service_choice == SERVICE_CHOICE_WHO_IS {
                match decode_whois(&service_data) {
                    Ok(w) => Some(BacnetEvent::WhoIs(w, source)),
                    Err(_) => None,
                }
            } else if service_choice == SERVICE_CHOICE_I_AM {
                match decode_iam(&service_data) {
                    Ok(i) => Some(BacnetEvent::IAm(i, source)),
                    Err(_) => None,
                }
            } else {
                None
            }
        },
        Apdu::ConfirmedRequest { invoke_id, service_choice, service_data, .. } => {
            if service_choice == SERVICE_CHOICE_READ_PROPERTY {
                match decode_read_property(&service_data) {
                    Ok(req) => Some(BacnetEvent::ReadProperty(req, invoke_id, source)),
                    Err(_) => None,
                }
            } else {
                None
            }
        },
        Apdu::ComplexAck { invoke_id, service_choice, service_data } => {
            if service_choice == SERVICE_CHOICE_READ_PROPERTY {
                match decode_read_property_ack(&service_data) {
                    Ok(a) => Some(BacnetEvent::ReadPropertyAck(a, invoke_id, source)),
                    Err(_) => None,
                }
            } else {
                None
            }
        },
    }
}

/// The protocol engine's own state: its configuration and the next invoke
/// identifier it will hand out. The socket itself lives with the caller,
/// which sends the frames this engine builds.
pub struct BacnetEngine {
    pub config: BacnetConfig,
    pub next_invoke_id: u8,
}

impl BacnetEngine {
    /// Invoke identifiers run from 1 to 255; 0 is never issued.
    pub open spec fn wf(self) -> bool {
        1 <= self.next_invoke_id
    }

    /// A fresh engine, with invoke identifiers starting at 1.
    pub fn new(config: BacnetConfig) -> (r: BacnetEngine)
        ensures
            r.config == config,
            r.next_invoke_id == 1,
            r.wf(),
    {
        BacnetEngine { config, next_invoke_id: 1 }
    }

    /// Builds the discovery broadcast frame. Side-effect free and
    /// idempotent: the caller broadcasts the bytes.
    pub fn discover(&self) -> (r: Vec<u8>)
        ensures
            r@ == discover_frame(),
    {
        let npdu = Npdu::new();
        let whois_buffer = encode_whois(&WhoIs { range: None });
        let apdu = Apdu::UnconfirmedRequest {
            service_choice: SERVICE_CHOICE_WHO_IS,
            service_data: whois_buffer,
        };
        let mut packet = encode_npdu(&npdu);
        let apdu_bytes = encode_apdu(&apdu);
        let mut i: usize = 0;
        let ghost pre = packet@;
        while i < apdu_bytes.len()
            invariant
                i <= apdu_bytes@.len(),
                packet@ == pre + apdu_bytes@.take(i as int),
            decreases apdu_bytes@.len() - i,
        {
            packet.push(apdu_bytes[i]);
            i = i + 1;
            assert(packet@ =~= pre + apdu_bytes@.take(i as int));
        }
        assert(apdu_bytes@.take(i as int) =~= apdu_bytes@);
        assert(packet@ =~= discover_frame());
        packet
    }

    /// Allocates the next invoke identifier and builds the confirmed
    /// single-property read frame carrying it. Fire-and-forget: the caller
    /// unicasts the bytes to the target and correlates a later
    /// acknowledgment by the returned identifier. The counter wraps from
    /// 255 back to 1 and never issues 0.
    pub fn read_property(
        &mut self,
        object_identifier: ObjectIdentifier,
        property_identifier: u32,
    ) -> (r: (Vec<u8>, u8))
        requires
            old(self).wf(),
            object_identifier.wf(),
        ensures
            final(self).wf(),
            final(self).config == old(self).config,
            r.1 == old(self).next_invoke_id,
            final(self).next_invoke_id == wrap_invoke_id(old(self).next_invoke_id),
            r.0@ == read_property_frame(r.1, object_identifier, property_identifier),
    {
        let invoke_id = self.next_invoke_id;
        self.next_invoke_id = if self.next_invoke_id == 255 {
            1
        } else {
            self.next_invoke_id + 1
        };
        let req = ReadPropertyRequest {
            object_identifier,
            property_identifier,
            property_array_index: None,
        };
        let service_data = encode_read_property(&req);
        let apdu = Apdu::ConfirmedRequest {
            segmented_response_accepted: true,
            max_segments: 0,
            max_response_size: 5,
            invoke_id,
            service_choice: SERVICE_CHOICE_READ_PROPERTY,
            service_data,
        };
        let mut npdu = Npdu::new();
        npdu.control.expecting_reply = true;
        assert(npdu@ == local_npdu(true));
        let mut packet = encode_npdu(&npdu);
        let apdu_bytes = encode_apdu(&apdu);
        let ghost pre = packet@;
        let mut i: usize = 0;
        while i < apdu_bytes.len()
            invariant
                i <= apdu_bytes@.len(),
                packet@ == pre + apdu_bytes@.take(i as int),
            decreases apdu_bytes@.len() - i,
        {
            packet.push(apdu_bytes[i]);
            i = i + 1;
            assert(packet@ =~= pre + apdu_bytes@.take(i as int));
        }
        assert(apdu_bytes@.take(i as int) =~= apdu_bytes@);
        assert(packet@ =~= read_property_frame(
            invoke_id,
            object_identifier,
            property_identifier,
        ));
        (packet, invoke_id)
    }
}

/// The discovery broadcast this engine builds is recognized by the receive
/// path as an unrestricted device-discovery request from its sender.
pub proof fn lemma_discover_frame_event(source: Address)
    ensures
        event_of_frame(discover_frame(), source) == Some(
            BacnetEventView::WhoIs(WhoIs { range: None }, source),
        ),
{
    let apdu = ApduView::UnconfirmedRequest {
        service_choice: SERVICE_CHOICE_WHO_IS,
        service_data: enc_whois(WhoIs { range: None }),
    };
    crate::npdu::lemma_parse_npdu_prefix(local_npdu(false), enc_apdu(apdu));
    let frame = discover_frame();
    assert(frame.skip(2) =~= enc_apdu(apdu));
    crate::apdu::lemma_apdu_round_trip(apdu);
    crate::services::lemma_whois_round_trip(WhoIs { range: None });
}

/// A read frame this engine builds is recognized by the receive path as the
/// property-read request it encodes, carrying the same invoke identifier.
pub proof fn lemma_read_property_frame_event(
    invoke_id: u8,
    object_identifier: ObjectIdentifier,
    property_identifier: u32,
    source: Address,
)
    requires
        object_identifier.wf(),
    ensures
        event_of_frame(read_property_frame(invoke_id, object_identifier, property_identifier), source)
            == Some(
            BacnetEventView::ReadProperty(
                ReadPropertyRequest {
                    object_identifier,
                    property_identifier,
                    property_array_index: None,
                },
                invoke_id,
                source,
            ),
        ),
{
    let req = ReadPropertyRequest {
        object_identifier,
        property_identifier,
        property_array_index: None,
    };
    let apdu = ApduView::ConfirmedRequest {
        segmented_response_accepted: true,
        max_segments: 0,
        max_response_size: 5,
        invoke_id,
        service_choice: SERVICE_CHOICE_READ_PROPERTY,
        service_data: enc_read_property(req),
    };
    crate::npdu::lemma_parse_npdu_prefix(local_npdu(true), enc_apdu(apdu));
    let frame = read_property_frame(invoke_id, object_identifier, property_identifier);
    assert(frame.skip(2) =~= enc_apdu(apdu));
    crate::apdu::lemma_apdu_round_trip(apdu);
    crate::services::lemma_read_property_round_trip(req);
}

/// A discovery response, framed under any routing-free application header,
/// is recognized by the receive path as a discovery-response event from its
/// sender.
pub proof fn lemma_iam_frame_event(i: IAm, n: NpduView, source: Address)
    requires
        i.wf(),
        n.wf(),
        n.no_routing(),
        !n.control.network_message,
    ensures
        event_of_frame(
            enc_npdu(n) + enc_apdu(
                ApduView::UnconfirmedRequest {
                    service_choice: SERVICE_CHOICE_I_AM,
                    service_data: enc_iam(i),
                },
            ),
            source,
        ) == Some(BacnetEventView::IAm(i, source)),
{
    let apdu = ApduView::UnconfirmedRequest {
        service_choice: SERVICE_CHOICE_I_AM,
        service_data: enc_iam(i),
    };
    crate::npdu::lemma_parse_npdu_prefix(n, enc_apdu(apdu));
    let frame = enc_npdu(n) + enc_apdu(apdu);
    assert(frame.skip(2) =~= enc_apdu(apdu));
    crate::apdu::lemma_apdu_round_trip(apdu);
    crate::services::lemma_iam_round_trip(i);
}

/// A property-read acknowledgment, framed under any routing-free
/// application header, is recognized by the receive path as an
/// acknowledgment event carrying the same invoke identifier.
pub proof fn lemma_ack_frame_event(
    a: ReadPropertyAckView,
    invoke_id: u8,
    n: NpduView,
    source: Address,
)
    requires
        a.wf(),
        n.wf(),
        n.no_routing(),
        !n.control.network_message,
    ensures
        event_of_frame(
            enc_npdu(n) + enc_apdu(
                ApduView::ComplexAck {
                    invoke_id,
                    service_choice: SERVICE_CHOICE_READ_PROPERTY,
                    service_data: enc_read_property_ack(a),
                },
            ),
            source,
        ) == Some(BacnetEventView::ReadPropertyAck(a, invoke_id, source)),
{
    let apdu = ApduView::ComplexAck {
        invoke_id,
        service_choice: SERVICE_CHOICE_READ_PROPERTY,
        service_data: enc_read_property_ack(a),
    };
    crate::npdu::lemma_parse_npdu_prefix(n, enc_apdu(apdu));
    let frame = enc_npdu(n) + enc_apdu(apdu);
    assert(frame.skip(2) =~= enc_apdu(apdu));
    crate::apdu::lemma_apdu_round_trip(apdu);
    crate::services::lemma_read_property_ack_round_trip(a);
}

/// The successor of an invoke identifier: 255 wraps to 1, never to 0.
pub open spec fn wrap_invoke_id(id: u8) -> u8 {
    if id == 255 {
        1
    } else {
        (id + 1) as u8
    }
}

} // verus!
