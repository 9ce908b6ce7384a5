use vstd::prelude::*;

use crate::codec::{copy_range, DecodeError};

verus! {

/// PDU type nibble of a confirmed service request.
pub const PDU_TYPE_CONFIRMED_REQUEST: u8 = 0;

/// PDU type nibble of an unconfirmed service request.
pub const PDU_TYPE_UNCONFIRMED_REQUEST: u8 = 1;

/// PDU type nibble of a complex acknowledgment.
pub const PDU_TYPE_COMPLEX_ACK: u8 = 3;

/// The application-layer envelope. This engine produces and consumes exactly
/// three of the eight defined forms; the rest decode to an error and are
/// dropped by the receive path. Segmented frames are out of scope and decode
/// to an error as well.
#[derive(Clone, PartialEq, Eq, Debug)]
pub enum Apdu {
    /// One header octet with the type nibble, a service choice octet, then
    /// the service body.
    UnconfirmedRequest { service_choice: u8, service_data: Vec<u8> },
    /// Type-and-flags octet, maximum-segments/maximum-response octet,
    /// invoke identifier, service choice, then the service body. Always
    /// unsegmented here.
    ConfirmedRequest {
        segmented_response_accepted: bool,
        max_segments: u8,
        max_response_size: u8,
        invoke_id: u8,
        service_choice: u8,
        service_data: Vec<u8>,
    },
    /// Type octet, invoke identifier, service choice, then the service body.
    ComplexAck { invoke_id: u8, service_choice: u8, service_data: Vec<u8> },
}

pub ghost enum ApduView {
    UnconfirmedRequest { service_choice: u8, service_data: Seq<u8> },
    ConfirmedRequest {
        segmented_response_accepted: bool,
        max_segments: u8,
        max_response_size: u8,
        invoke_id: u8,
        service_choice: u8,
        service_data: Seq<u8>,
    },
    ComplexAck { invoke_id: u8, service_choice: u8, service_data: Seq<u8> },
}

impl View for Apdu {
    type V = ApduView;

    open spec fn view(&self) -> ApduView {
        match self {
            Apdu::UnconfirmedRequest { service_choice, service_data } => (
            ApduView::UnconfirmedRequest {
                service_choice: *service_choice,
                service_data: service_data@,
            }),
            Apdu::ConfirmedRequest {
                segmented_response_accepted,
                max_segments,
                max_response_size,
                invoke_id,
                service_choice,
                service_data,
            } => (ApduView::ConfirmedRequest {
                segmented_response_accepted: *segmented_response_accepted,
                max_segments: *max_segments,
                max_response_size: *max_response_size,
                invoke_id: *invoke_id,
                service_choice: *service_choice,
                service_data: service_data@,
            }),
            Apdu::ComplexAck { invoke_id, service_choice, service_data } => (ApduView::ComplexAck {
                invoke_id: *invoke_id,
                service_choice: *service_choice,
                service_data: service_data@,
            }),
        }
    }
}

impl ApduView {
    /// The segment-count field is three bits and the response-size field
    /// names one of the six defined sizes.
    pub open spec fn wf(self) -> bool {
        match self {
            ApduView::UnconfirmedRequest { .. } => true,
            ApduView::ConfirmedRequest { max_segments, max_response_size, .. } => max_segments <= 7
                && max_response_size <= 5,
            ApduView::ComplexAck { .. } => true,
        }
    }
}

/// An application-layer envelope on the wire.
pub open spec fn enc_apdu(a: ApduView) -> Seq<u8>
    recommends
        a.wf(),
{
    match a {
        ApduView::UnconfirmedRequest { service_choice, service_data } => seq![
            0x10u8,
            service_choice,
        ] + service_data,
        ApduView::ConfirmedRequest {
            segmented_response_accepted,
            max_segments,
            max_response_size,
            invoke_id,
            service_choice,
            service_data,
        } => seq![
            (if segmented_response_accepted {
                2u8
            } else {
                0u8
            }),
            (max_segments * 16 + max_response_size) as u8,
            invoke_id,
            service_choice,
        ] + service_data,
        ApduView::ComplexAck { invoke_id, service_choice, service_data } => seq![
            0x30u8,
            invoke_id,
            service_choice,
        ] + service_data,
    }
}

/// Parses an application-layer envelope, strictly by the type nibble of the
/// first octet; unknown types, segmented frames and truncated headers parse
/// to nothing. The service body runs to the end of the buffer.
pub open spec fn parse_apdu(s: Seq<u8>) -> Option<ApduView> {
    if s.len() == 0 {
        None
    } else {
        let b = s[0];
        if b / 16 == PDU_TYPE_UNCONFIRMED_REQUEST {
            if b % 16 == 0 && s.len() >= 2 {
                Some(
                    (ApduView::UnconfirmedRequest {
                        service_choice: s[1],
                        service_data: s.subrange(2, s.len() as int),
                    }),
                )
            } else {
                None
            }
        } else if b / 16 == PDU_TYPE_CONFIRMED_REQUEST {
            if (b % 16 == 0 || b % 16 == 2) && s.len() >= 4 {
                Some(
                    (ApduView::ConfirmedRequest {
                        segmented_response_accepted: b % 16 == 2,
                        max_segments: (s[1] / 16) % 8,
                        max_response_size: if s[1] % 16 <= 5 {
                            s[1] % 16
                        } else {
                            0
                        },
                        invoke_id: s[2],
                        service_choice: s[3],
                        service_data: s.subrange(4, s.len() as int),
                    }),
                )
            } else {
                None
            }
        } else if b / 16 == PDU_TYPE_COMPLEX_ACK {
            if b % 16 == 0 && s.len() >= 3 {
                Some(
                    (ApduView::ComplexAck {
                        invoke_id: s[1],
                        service_choice: s[2],
                        service_data: s.subrange(3, s.len() as int),
                    }),
                )
            } else {
                None
            }
        } else {
            None
        }
    }
}

/// Encodes an application-layer envelope.
pub fn encode_apdu(a: &Apdu) -> (r: Vec<u8>)
    requires
        a@.wf(),
    ensures
        r@ == enc_apdu(a@),
{
    let mut out: Vec<u8> = Vec::new();
    match a {
        Apdu::UnconfirmedRequest { service_choice, service_data } => {
            out.push(0x10);
            out.push(*service_choice);
            let mut i: usize = 0;
            while i < service_data.len()
                invariant
                    i <= service_data@.len(),
                    out@ == seq![0x10u8, a@->UnconfirmedRequest_service_choice]
                        + service_data@.take(i as int),
                decreases service_data@.len() - i,
            {
                out.push(service_data[i]);
                i = i + 1;
                assert(out@ =~= seq![0x10u8, a@->UnconfirmedRequest_service_choice]
                    + service_data@.take(i as int));
            }
            assert(service_data@.take(i as int) =~= service_data@);
        },
        Apdu::ConfirmedRequest {
            segmented_response_accepted,
            max_segments,
            max_response_size,
            invoke_id,
            service_choice,
            service_data,
        } => {
            out.push(if *segmented_response_accepted {
                2
            } else {
                0
            });
            out.push(*max_segments * 16 + *max_response_size);
            out.push(*invoke_id);
            out.push(*service_choice);
            let ghost hdr = enc_apdu(a@).take(4);
            assert(out@ =~= hdr);
            let mut i: usize = 0;
            while i < service_data.len()
                invariant
                    i <= service_data@.len(),
                    out@ == hdr + service_data@.take(i as int),
                decreases service_data@.len() - i,
            {
                out.push(service_data[i]);
                i = i + 1;
                assert(out@ =~= hdr + service_data@.take(i as int));
            }
            assert(service_data@.take(i as int) =~= service_data@);
        },
        Apdu::ComplexAck { invoke_id, service_choice, service_data } => {
            out.push(0x30);
            out.push(*invoke_id);
            out.push(*service_choice);
            let ghost hdr = enc_apdu(a@).take(3);
            assert(out@ =~= hdr);
            let mut i: usize = 0;
            while i < service_data.len()
                invariant
                    i <= service_data@.len(),
                    out@ == hdr + service_data@.take(i as int),
                decreases service_data@.len() - i,
            {
                out.push(service_data[i]);
                i = i + 1;
                assert(out@ =~= hdr + service_data@.take(i as int));
            }
            assert(service_data@.take(i as int) =~= service_data@);
        },
    }
    assert(out@ =~= enc_apdu(a@));
    out
}

/// Decodes an application-layer envelope from a whole buffer.
pub fn decode_apdu(data: &Vec<u8>) -> (r: Result<Apdu, DecodeError>)
    ensures
        match r {
            Ok(a) => parse_apdu(data@) == Some(a@) && a@.wf(),
            Err(_) => parse_apdu(data@) is None,
        },
{
    if data.len() == 0 {
        return Err(DecodeError::InvalidLength);
    }
    let b = data[0];
    let pdu_type = b / 16;
    let flags = b % 16;
    if pdu_type == PDU_TYPE_UNCONFIRMED_REQUEST {
        if flags != 0 {
            return Err(DecodeError::UnsupportedType);
        }
        if data.len() < 2 {
            return Err(DecodeError::InvalidLength);
        }
        let service_data = copy_range(data, 2, data.len());
        Ok(Apdu::UnconfirmedRequest { service_choice: data[1], service_data })
    } else if pdu_type == PDU_TYPE_CONFIRMED_REQUEST {
        if flags != 0 && flags != 2 {
            return Err(DecodeError::UnsupportedType);
        }
        if data.len() < 4 {
            return Err(DecodeError::InvalidLength);
        }
        let max_byte = data[1];
        let service_data = copy_range(data, 4, data.len());
        Ok(
            Apdu::ConfirmedRequest {
                segmented_response_accepted: flags == 2,
                max_segments: (max_byte / 16) % 8,
                max_response_size: if max_byte % 16 <= 5 {
                    max_byte % 16
                } else {
                    0
                },
                invoke_id: data[2],
                service_choice: data[3],
                service_data,
            },
        )
    } else if pdu_type == PDU_TYPE_COMPLEX_ACK {
        if flags != 0 {
            return Err(DecodeError::UnsupportedType);
        }
        if data.len() < 3 {
            return Err(DecodeError::InvalidLength);
        }
        let service_data = copy_range(data, 3, data.len());
        Ok(Apdu::ComplexAck { invoke_id: data[1], service_choice: data[2], service_data })
    } else {
        Err(DecodeError::UnsupportedType)
    }
}

/// Every well-formed envelope decodes back to itself from its own encoding.
pub proof fn lemma_apdu_round_trip(a: ApduView)
    requires
        a.wf(),
    ensures
        parse_apdu(enc_apdu(a)) == Some(a),
{
    let s = enc_apdu(a);
    match a {
        ApduView::UnconfirmedRequest { service_choice, service_data } => {
            assert(s.subrange(2, s.len() as int) =~= service_data);
        },
        ApduView::ConfirmedRequest {
            segmented_response_accepted,
            max_segments,
            max_response_size,
            invoke_id,
            service_choice,
            service_data,
        } => {
            let m = (max_segments * 16 + max_response_size) as u8;
            assert(((max_segments * 16 + max_response_size) as u8 / 16) % 8 == max_segments && (
            max_segments * 16 + max_response_size) as u8 % 16 == max_response_size)
                by (bit_vector)
                requires
                    max_segments <= 7 && max_response_size <= 5,
            ;
            assert(s.subrange(4, s.len() as int) =~= service_data);
        },
        ApduView::ComplexAck { invoke_id, service_choice, service_data } => {
            assert(s.subrange(3, s.len() as int) =~= service_data);
        },
    }
}

} // verus!
