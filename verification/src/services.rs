use vstd::prelude::*;

use crate::codec::{
    copy_range, enc_app_quad, enc_app_uint, enc_ctx_quad, enc_ctx_uint, lemma_parse_app_quad_at,
    lemma_parse_app_uint_at, lemma_parse_ctx_quad_at, lemma_parse_ctx_uint_at,
    app_tag_byte, closing_tag_byte, lemma_word_of_quad_bytes, opening_tag_byte, parse_app_quad, parse_app_uint,
    parse_ctx_quad, parse_ctx_uint, put_app_quad, put_app_uint, put_ctx_quad, put_ctx_uint,
    quad_bytes, word_of, DecodeError,
};

verus! {

/// Application tag number of an unsigned integer.
pub const TAG_UNSIGNED: u8 = 2;

/// Application tag number of a 32-bit real.
pub const TAG_REAL: u8 = 4;

/// Application tag number of an enumerated value.
pub const TAG_ENUMERATED: u8 = 9;

/// Application tag number of an object identifier.
pub const TAG_OBJECT_ID: u8 = 12;

/// Service choice of the device-discovery broadcast.
pub const SERVICE_CHOICE_WHO_IS: u8 = 8;

/// Service choice of the discovery response.
pub const SERVICE_CHOICE_I_AM: u8 = 0;

/// Service choice of the confirmed single-property read.
pub const SERVICE_CHOICE_READ_PROPERTY: u8 = 12;

/// Object type number of a device object.
pub const OBJECT_TYPE_DEVICE: u16 = 8;

/// Object type number of an analog input.
pub const OBJECT_TYPE_ANALOG_INPUT: u16 = 0;

/// Property identifier of present-value.
pub const PROP_PRESENT_VALUE: u32 = 85;

/// An object on a device: ten-bit type and twenty-two-bit instance, packed
/// into one 32-bit word on the wire.
#[derive(Clone, Copy, PartialEq, Eq, Structural, Debug, Hash)]
pub struct ObjectIdentifier {
    pub object_type: u16,
    pub instance: u32,
}

impl ObjectIdentifier {
    pub open spec fn wf(self) -> bool {
        self.object_type < 0x400 && self.instance < 0x400000
    }
}

/// The packed wire word of an object identifier.
pub open spec fn objid_word(o: ObjectIdentifier) -> u32
    recommends
        o.wf(),
{
    (o.object_type * 0x400000 + o.instance) as u32
}

/// The object identifier a packed wire word names.
pub open spec fn objid_of_word(w: u32) -> ObjectIdentifier {
    ObjectIdentifier { object_type: (w / 0x400000) as u16, instance: w % 0x400000 }
}

/// Packing an object identifier and unpacking the word gives it back.
pub proof fn lemma_objid_round_trip(o: ObjectIdentifier)
    requires
        o.wf(),
    ensures
        objid_of_word(objid_word(o)) == o,
        objid_of_word(objid_word(o)).wf(),
{
    let t = o.object_type;
    let i = o.instance;
    assert(((t as u32 * 0x400000 + i) as u32 / 0x400000) as u16 == t && (t as u32 * 0x400000
        + i) as u32 % 0x400000 == i) by (bit_vector)
        requires
            t < 0x400 && i < 0x400000,
    ;
}

/// Every unpacked word is a well-formed identifier.
pub proof fn lemma_objid_of_word_wf(w: u32)
    ensures
        objid_of_word(w).wf(),
{
    assert(w / 0x400000 < 0x400 && w % 0x400000 < 0x400000) by (bit_vector);
}

/// Packs an object identifier into its wire word.
pub fn objid_to_word(o: &ObjectIdentifier) -> (w: u32)
    requires
        o.wf(),
    ensures
        w == objid_word(*o),
{
    (o.object_type as u32) * 0x400000 + o.instance
}

/// Unpacks a wire word into an object identifier.
pub fn objid_from_word(w: u32) -> (o: ObjectIdentifier)
    ensures
        o == objid_of_word(w),
        o.wf(),
{
    proof {
        lemma_objid_of_word_wf(w);
    }
    ObjectIdentifier { object_type: (w / 0x400000) as u16, instance: w % 0x400000 }
}

/// An inclusive device-instance range a discovery broadcast is limited to.
#[derive(Clone, Copy, PartialEq, Eq, Structural, Debug)]
pub struct InstanceRange {
    pub low: u32,
    pub high: u32,
}

/// The device-discovery broadcast: an optional instance range; no range
/// means every device must respond.
#[derive(Clone, Copy, PartialEq, Eq, Debug)]
pub struct WhoIs {
    pub range: Option<InstanceRange>,
}

/// A discovery broadcast on the wire: nothing, or the two context-tagged
/// limits.
pub open spec fn enc_whois(w: WhoIs) -> Seq<u8> {
    match w.range {
        None => seq![],
        Some(r) => enc_ctx_uint(0, r.low) + enc_ctx_uint(1, r.high),
    }
}

/// Parses a discovery broadcast: an empty body is the unrestricted request;
/// otherwise both limits must be present and fill the body exactly.
pub open spec fn parse_whois(s: Seq<u8>) -> Option<WhoIs> {
    if s.len() == 0 {
        Some((WhoIs { range: None }))
    } else {
        match parse_ctx_uint(s, 0, 0) {
            None => None,
            Some((low, p)) => match parse_ctx_uint(s, p, 1) {
                None => None,
                Some((high, p2)) => if p2 == s.len() {
                    Some((WhoIs { range: Some((InstanceRange { low, high })) }))
                } else {
                    None
                },
            },
        }
    }
}

/// Encodes a discovery broadcast.
pub fn encode_whois(w: &WhoIs) -> (r: Vec<u8>)
    ensures
        r@ == enc_whois(*w),
{
    let mut out: Vec<u8> = Vec::new();
    match &w.range {
        None => {},
        Some(range) => {
            put_ctx_uint(&mut out, 0, range.low);
            put_ctx_uint(&mut out, 1, range.high);
        },
    }
    assert(out@ =~= enc_whois(*w));
    out
}

/// Decodes a discovery broadcast.
pub fn decode_whois(data: &Vec<u8>) -> (r: Result<WhoIs, DecodeError>)
    ensures
        match r {
            Ok(w) => parse_whois(data@) == Some(w),
            Err(_) => parse_whois(data@) is None,
        },
{
    if data.len() == 0 {
        return Ok(WhoIs { range: None });
    }
    let (low, p) = match crate::codec::read_ctx_uint(data, 0, 0) {
        Ok(x) => x,
        Err(e) => {
            return Err(e);
        },
    };
    let (high, p2) = match crate::codec::read_ctx_uint(data, p, 1) {
        Ok(x) => x,
        Err(e) => {
            return Err(e);
        },
    };
    if p2 != data.len() {
        return Err(DecodeError::InvalidFormat);
    }
    Ok(WhoIs { range: Some(InstanceRange { low, high }) })
}

/// A discovery broadcast decodes back to itself, the rangeless form
/// included.
pub proof fn lemma_whois_round_trip(w: WhoIs)
    ensures
        parse_whois(enc_whois(w)) == Some(w),
{
    match w.range {
        None => {},
        Some(r) => {
            let e0 = enc_ctx_uint(0, r.low);
            let e1 = enc_ctx_uint(1, r.high);
            let s = enc_whois(w);
            assert(s.subrange(0, e0.len() as int) =~= e0);
            lemma_parse_ctx_uint_at(s, 0, 0, r.low);
            assert(s.subrange(e0.len() as int, s.len() as int) =~= e1);
            lemma_parse_ctx_uint_at(s, e0.len() as int, 1, r.high);
        },
    }
}

/// The discovery response: device identifier, maximum accepted message
/// size, segmentation support and vendor number.
#[derive(Clone, Copy, PartialEq, Eq, Debug)]
pub struct IAm {
    pub device_identifier: ObjectIdentifier,
    pub max_apdu_length_accepted: u32,
    pub segmentation_supported: u32,
    pub vendor_identifier: u16,
}

impl IAm {
    /// The identifier is in range and the segmentation enumeration names one
    /// of its four defined values.
    pub open spec fn wf(self) -> bool {
        self.device_identifier.wf() && self.segmentation_supported <= 3
    }
}

/// A discovery response on the wire: four application-tagged fields.
pub open spec fn enc_iam(i: IAm) -> Seq<u8>
    recommends
        i.wf(),
{
    enc_app_quad(TAG_OBJECT_ID, objid_word(i.device_identifier)) + enc_app_uint(
        TAG_UNSIGNED,
        i.max_apdu_length_accepted,
    ) + enc_app_uint(TAG_ENUMERATED, i.segmentation_supported) + enc_app_uint(
        TAG_UNSIGNED,
        i.vendor_identifier as u32,
    )
}

/// Parses a discovery response. The segmentation value must name one of the
/// four defined values and the vendor number must fit sixteen bits.
pub open spec fn parse_iam(s: Seq<u8>) -> Option<IAm> {
    match parse_app_quad(s, 0, TAG_OBJECT_ID) {
        None => None,
        Some((w, p)) => match parse_app_uint(s, p, TAG_UNSIGNED) {
            None => None,
            Some((max_apdu, p2)) => match parse_app_uint(s, p2, TAG_ENUMERATED) {
                None => None,
                Some((seg, p3)) => match parse_app_uint(s, p3, TAG_UNSIGNED) {
                    None => None,
                    Some((vendor, p4)) => if seg <= 3 && vendor <= 0xFFFF && p4 == s.len() {
                        Some(
                            (IAm {
                                device_identifier: objid_of_word(w),
                                max_apdu_length_accepted: max_apdu,
                                segmentation_supported: seg,
                                vendor_identifier: vendor as u16,
                            }),
                        )
                    } else {
                        None
                    },
                },
            },
        },
    }
}

/// Encodes a discovery response.
pub fn encode_iam(i: &IAm) -> (r: Vec<u8>)
    requires
        i.wf(),
    ensures
        r@ == enc_iam(*i),
{
    let mut out: Vec<u8> = Vec::new();
    put_app_quad(&mut out, TAG_OBJECT_ID, objid_to_word(&i.device_identifier));
    put_app_uint(&mut out, TAG_UNSIGNED, i.max_apdu_length_accepted);
    put_app_uint(&mut out, TAG_ENUMERATED, i.segmentation_supported);
    put_app_uint(&mut out, TAG_UNSIGNED, i.vendor_identifier as u32);
    assert(out@ =~= enc_iam(*i));
    out
}

/// Decodes a discovery response.
pub fn decode_iam(data: &Vec<u8>) -> (r: Result<IAm, DecodeError>)
    ensures
        match r {
            Ok(i) => parse_iam(data@) == Some(i) && i.wf(),
            Err(_) => parse_iam(data@) is None,
        },
{
    let (w, p) = match crate::codec::read_app_quad(data, 0, TAG_OBJECT_ID) {
        Ok(x) => x,
        Err(e) => {
            return Err(e);
        },
    };
    let (max_apdu, p2) = match crate::codec::read_app_uint(data, p, TAG_UNSIGNED) {
        Ok(x) => x,
        Err(e) => {
            return Err(e);
        },
    };
    let (seg, p3) = match crate::codec::read_app_uint(data, p2, TAG_ENUMERATED) {
        Ok(x) => x,
        Err(e) => {
            return Err(e);
        },
    };
    let (vendor, p4) = match crate::codec::read_app_uint(data, p3, TAG_UNSIGNED) {
        Ok(x) => x,
        Err(e) => {
            return Err(e);
        },
    };
    if seg > 3 || vendor > 0xFFFF || p4 != data.len() {
        return Err(DecodeError::InvalidFormat);
    }
    proof {
        lemma_objid_of_word_wf(w);
    }
    Ok(
        IAm {
            device_identifier: objid_from_word(w),
            max_apdu_length_accepted: max_apdu,
            segmentation_supported: seg,
            vendor_identifier: vendor as u16,
        },
    )
}

/// A discovery response decodes back to itself.
pub proof fn lemma_iam_round_trip(i: IAm)
    requires
        i.wf(),
    ensures
        parse_iam(enc_iam(i)) == Some(i),
{
    let e0 = enc_app_quad(TAG_OBJECT_ID, objid_word(i.device_identifier));
    let e1 = enc_app_uint(TAG_UNSIGNED, i.max_apdu_length_accepted);
    let e2 = enc_app_uint(TAG_ENUMERATED, i.segmentation_supported);
    let e3 = enc_app_uint(TAG_UNSIGNED, i.vendor_identifier as u32);
    let s = enc_iam(i);
    let p1 = e0.len() as int;
    let p2 = p1 + e1.len();
    let p3 = p2 + e2.len();
    let p4 = p3 + e3.len();
    assert(s.subrange(0, 5) =~= e0);
    lemma_parse_app_quad_at(s, 0, TAG_OBJECT_ID, objid_word(i.device_identifier));
    assert(s.subrange(p1, p1 + e1.len()) =~= e1);
    lemma_parse_app_uint_at(s, p1, TAG_UNSIGNED, i.max_apdu_length_accepted);
    assert(s.subrange(p2, p2 + e2.len()) =~= e2);
    lemma_parse_app_uint_at(s, p2, TAG_ENUMERATED, i.segmentation_supported);
    assert(s.subrange(p3, p3 + e3.len()) =~= e3);
    lemma_parse_app_uint_at(s, p3, TAG_UNSIGNED, i.vendor_identifier as u32);
    lemma_objid_round_trip(i.device_identifier);
}

/// The confirmed single-property read request.
#[derive(Clone, Copy, PartialEq, Eq, Debug)]
pub struct ReadPropertyRequest {
    pub object_identifier: ObjectIdentifier,
    pub property_identifier: u32,
    pub property_array_index: Option<u32>,
}

impl ReadPropertyRequest {
    pub open spec fn wf(self) -> bool {
        self.object_identifier.wf()
    }
}

/// A property-read request on the wire: context-tagged object identifier,
/// property identifier, and optional array index.
pub open spec fn enc_read_property(r: ReadPropertyRequest) -> Seq<u8>
    recommends
        r.wf(),
{
    enc_ctx_quad(0, objid_word(r.object_identifier)) + enc_ctx_uint(1, r.property_identifier) + (
    match r.property_array_index {
        Some(i) => enc_ctx_uint(2, i),
        None => seq![],
    })
}

/// Parses a property-read request.
pub open spec fn parse_read_property(s: Seq<u8>) -> Option<ReadPropertyRequest> {
    match parse_ctx_quad(s, 0, 0) {
        None => None,
        Some((w, p)) => match parse_ctx_uint(s, p, 1) {
            None => None,
            Some((prop, p2)) => if p2 == s.len() {
                Some(
                    (ReadPropertyRequest {
                        object_identifier: objid_of_word(w),
                        property_identifier: prop,
                        property_array_index: None,
                    }),
                )
            } else {
                match parse_ctx_uint(s, p2, 2) {
                    None => None,
                    Some((idx, p3)) => if p3 == s.len() {
                        Some(
                            (ReadPropertyRequest {
                                object_identifier: objid_of_word(w),
                                property_identifier: prop,
                                property_array_index: Some(idx),
                            }),
                        )
                    } else {
                        None
                    },
                }
            },
        },
    }
}

/// Encodes a property-read request.
pub fn encode_read_property(r: &ReadPropertyRequest) -> (out: Vec<u8>)
    requires
        r.wf(),
    ensures
        out@ == enc_read_property(*r),
{
    let mut out: Vec<u8> = Vec::new();
    put_ctx_quad(&mut out, 0, objid_to_word(&r.object_identifier));
    put_ctx_uint(&mut out, 1, r.property_identifier);
    match &r.property_array_index {
        Some(i) => {
            put_ctx_uint(&mut out, 2, *i);
        },
        None => {},
    }
    assert(out@ =~= enc_read_property(*r));
    out
}

/// Decodes a property-read request.
pub fn decode_read_property(data: &Vec<u8>) -> (r: Result<ReadPropertyRequest, DecodeError>)
    ensures
        match r {
            Ok(req) => parse_read_property(data@) == Some(req) && req.wf(),
            Err(_) => parse_read_property(data@) is None,
        },
{
    let (w, p) = match crate::codec::read_ctx_quad(data, 0, 0) {
        Ok(x) => x,
        Err(e) => {
            return Err(e);
        },
    };
    let (prop, p2) = match crate::codec::read_ctx_uint(data, p, 1) {
        Ok(x) => x,
        Err(e) => {
            return Err(e);
        },
    };
    if p2 == data.len() {
        return Ok(
            ReadPropertyRequest {
                object_identifier: objid_from_word(w),
                property_identifier: prop,
                property_array_index: None,
            },
        );
    }
    let (idx, p3) = match crate::codec::read_ctx_uint(data, p2, 2) {
        Ok(x) => x,
        Err(e) => {
            return Err(e);
        },
    };
    if p3 != data.len() {
        return Err(DecodeError::InvalidFormat);
    }
    Ok(
        ReadPropertyRequest {
            object_identifier: objid_from_word(w),
            property_identifier: prop,
            property_array_index: Some(idx),
        },
    )
}

/// A property-read request decodes back to itself, with and without an
/// array index.
pub proof fn lemma_read_property_round_trip(r: ReadPropertyRequest)
    requires
        r.wf(),
    ensures
        parse_read_property(enc_read_property(r)) == Some(r),
{
    let e0 = enc_ctx_quad(0, objid_word(r.object_identifier));
    let e1 = enc_ctx_uint(1, r.property_identifier);
    let s = enc_read_property(r);
    let p1 = e0.len() as int;
    let p2 = p1 + e1.len();
    assert(s.subrange(0, 5) =~= e0);
    lemma_parse_ctx_quad_at(s, 0, 0, objid_word(r.object_identifier));
    assert(s.subrange(p1, p2) =~= e1);
    lemma_parse_ctx_uint_at(s, p1, 1, r.property_identifier);
    match r.property_array_index {
        None => {},
        Some(i) => {
            let e2 = enc_ctx_uint(2, i);
            assert(s.subrange(p2, p2 + e2.len()) =~= e2);
            lemma_parse_ctx_uint_at(s, p2, 2, i);
        },
    }
    lemma_objid_round_trip(r.object_identifier);
}

/// One application-tagged primitive with its tag octet: class bit clear,
/// short-form length, and exactly that many content bytes.
pub open spec fn wf_app_primitive(v: Seq<u8>) -> bool {
    v.len() >= 1 && (v[0] / 8) % 2 == 0 && v[0] % 8 <= 4 && v.len() == 1 + v[0] % 8
}

/// The acknowledgment of a property read: the request's identifying fields
/// and the property value, one application-tagged primitive kept as raw
/// bytes. Only the real form is interpreted numerically, by
/// `decode_real_value`.
#[derive(Clone, PartialEq, Eq, Debug)]
pub struct ReadPropertyAck {
    pub object_identifier: ObjectIdentifier,
    pub property_identifier: u32,
    pub property_array_index: Option<u32>,
    pub property_value: Vec<u8>,
}

pub ghost struct ReadPropertyAckView {
    pub object_identifier: ObjectIdentifier,
    pub property_identifier: u32,
    pub property_array_index: Option<u32>,
    pub property_value: Seq<u8>,
}

impl View for ReadPropertyAck {
    type V = ReadPropertyAckView;

    open spec fn view(&self) -> ReadPropertyAckView {
        ReadPropertyAckView {
            object_identifier: self.object_identifier,
            property_identifier: self.property_identifier,
            property_array_index: self.property_array_index,
            property_value: self.property_value@,
        }
    }
}

impl ReadPropertyAckView {
    pub open spec fn wf(self) -> bool {
        self.object_identifier.wf() && wf_app_primitive(self.property_value)
    }
}

/// A property-read acknowledgment on the wire: the identifying fields, then
/// the value between an opening and a closing context tag three.
pub open spec fn enc_read_property_ack(a: ReadPropertyAckView) -> Seq<u8>
    recommends
        a.wf(),
{
    enc_ctx_quad(0, objid_word(a.object_identifier)) + enc_ctx_uint(1, a.property_identifier) + (
    match a.property_array_index {
        Some(i) => enc_ctx_uint(2, i),
        None => seq![],
    }) + seq![opening_tag_byte(3)] + a.property_value + seq![closing_tag_byte(3)]
}

/// Parses the value span between the tag-three brackets: one
/// application-tagged primitive.
pub open spec fn parse_bracketed_value(s: Seq<u8>, pos: int) -> Option<(Seq<u8>, int)> {
    if 0 <= pos && pos + 2 <= s.len() && s[pos] == opening_tag_byte(3) {
        let b = s[pos + 1];
        if (b / 8) % 2 == 0 && b % 8 <= 4 && pos + 3 + (b % 8) <= s.len() && s[pos + 2 + (b
            % 8)] == closing_tag_byte(3) {
            Some((s.subrange(pos + 1, pos + 2 + (b % 8)), pos + 3 + (b % 8)))
        } else {
            None
        }
    } else {
        None
    }
}

/// Parses a property-read acknowledgment.
pub open spec fn parse_read_property_ack(s: Seq<u8>) -> Option<ReadPropertyAckView> {
    match parse_ctx_quad(s, 0, 0) {
        None => None,
        Some((w, p)) => match parse_ctx_uint(s, p, 1) {
            None => None,
            Some((prop, p2)) => {
                let istep: (Option<u32>, int) = match parse_ctx_uint(s, p2, 2) {
                    Some((idx, p3)) => (Some(idx), p3),
                    None => (None, p2),
                };
                match parse_bracketed_value(s, istep.1) {
                    None => None,
                    Some((value, p4)) => if p4 == s.len() {
                        Some(
                            (ReadPropertyAckView {
                                object_identifier: objid_of_word(w),
                                property_identifier: prop,
                                property_array_index: istep.0,
                                property_value: value,
                            }),
                        )
                    } else {
                        None
                    },
                }
            },
        },
    }
}

/// Encodes a property-read acknowledgment.
pub fn encode_read_property_ack(a: &ReadPropertyAck) -> (out: Vec<u8>)
    requires
        a@.wf(),
    ensures
        out@ == enc_read_property_ack(a@),
{
    let mut out: Vec<u8> = Vec::new();
    put_ctx_quad(&mut out, 0, objid_to_word(&a.object_identifier));
    put_ctx_uint(&mut out, 1, a.property_identifier);
    match &a.property_array_index {
        Some(i) => {
            put_ctx_uint(&mut out, 2, *i);
        },
        None => {},
    }
    out.push(0x3E);
    let ghost pre = out@;
    let mut i: usize = 0;
    while i < a.property_value.len()
        invariant
            i <= a.property_value@.len(),
            out@ == pre + a.property_value@.take(i as int),
        decreases a.property_value@.len() - i,
    {
        out.push(a.property_value[i]);
        i = i + 1;
        assert(out@ =~= pre + a.property_value@.take(i as int));
    }
    assert(a.property_value@.take(i as int) =~= a.property_value@);
    out.push(0x3F);
    assert(out@ =~= enc_read_property_ack(a@));
    out
}

/// Decodes a property-read acknowledgment.
pub fn decode_read_property_ack(data: &Vec<u8>) -> (r: Result<ReadPropertyAck, DecodeError>)
    ensures
        match r {
            Ok(a) => parse_read_property_ack(data@) == Some(a@) && a@.wf(),
            Err(_) => parse_read_property_ack(data@) is None,
        },
{
    let (w, p) = match crate::codec::read_ctx_quad(data, 0, 0) {
        Ok(x) => x,
        Err(e) => {
            return Err(e);
        },
    };
    let (prop, p2) = match crate::codec::read_ctx_uint(data, p, 1) {
        Ok(x) => x,
        Err(e) => {
            return Err(e);
        },
    };
    let (idx, p3): (Option<u32>, usize) = match crate::codec::read_ctx_uint(data, p2, 2) {
        Ok((i, q)) => (Some(i), q),
        Err(_) => (None, p2),
    };
    if data.len() - p3 < 2 {
        return Err(DecodeError::InvalidLength);
    }
    if data[p3] != 0x3E {
        return Err(DecodeError::InvalidTag);
    }
    let b = data[p3 + 1];
    if (b / 8) % 2 != 0 || b % 8 > 4 {
        return Err(DecodeError::UnsupportedType);
    }
    let n = (b % 8) as usize;
    if data.len() - p3 - 2 < n + 1 {
        return Err(DecodeError::InvalidLength);
    }
    if data[p3 + 2 + n] != 0x3F {
        return Err(DecodeError::InvalidTag);
    }
    if p3 + 3 + n != data.len() {
        return Err(DecodeError::InvalidFormat);
    }
    let property_value = copy_range(data, p3 + 1, p3 + 2 + n);
    Ok(
        ReadPropertyAck {
            object_identifier: objid_from_word(w),
            property_identifier: prop,
            property_array_index: idx,
            property_value,
        },
    )
}

/// A property-read acknowledgment decodes back to itself.
pub proof fn lemma_read_property_ack_round_trip(a: ReadPropertyAckView)
    requires
        a.wf(),
    ensures
        parse_read_property_ack(enc_read_property_ack(a)) == Some(a),
{
    let e0 = enc_ctx_quad(0, objid_word(a.object_identifier));
    let e1 = enc_ctx_uint(1, a.property_identifier);
    let e2 = match a.property_array_index {
        Some(i) => enc_ctx_uint(2, i),
        None => seq![],
    };
    let s = enc_read_property_ack(a);
    let p1 = e0.len() as int;
    let p2 = p1 + e1.len();
    let p3 = p2 + e2.len();
    assert(s.subrange(0, 5) =~= e0);
    lemma_parse_ctx_quad_at(s, 0, 0, objid_word(a.object_identifier));
    assert(s.subrange(p1, p2) =~= e1);
    lemma_parse_ctx_uint_at(s, p1, 1, a.property_identifier);
    match a.property_array_index {
        Some(i) => {
            assert(s.subrange(p2, p3) =~= enc_ctx_uint(2, i));
            lemma_parse_ctx_uint_at(s, p2, 2, i);
        },
        None => {
            assert(s[p2] == 0x3E);
            assert(parse_ctx_uint(s, p2, 2) is None);
        },
    }
    assert(s[p3] == 0x3E);
    assert(s[p3 + 1] == a.property_value[0]);
    assert(s[p3 + 2 + (a.property_value[0] % 8)] == 0x3F);
    assert(s.subrange(p3 + 1, p3 + 2 + (a.property_value[0] % 8)) =~= a.property_value);
    lemma_objid_round_trip(a.object_identifier);
}

/// The wire form of a 32-bit real: its application tag octet, then the four
/// big-endian bytes of the value.
pub open spec fn enc_real(bits: u32) -> Seq<u8> {
    seq![app_tag_byte(TAG_REAL, 4)] + quad_bytes(bits)
}

/// Parses a lone application-tagged real, yielding the raw bits of the
/// 32-bit value.
pub open spec fn parse_real(s: Seq<u8>) -> Option<u32> {
    if s.len() == 5 && s[0] == app_tag_byte(TAG_REAL, 4) {
        Some((word_of(s.subrange(1, 5)) as u32))
    } else {
        None
    }
}

/// Encodes the raw bits of a 32-bit real as an application-tagged value.
pub fn encode_real_value(bits: u32) -> (r: Vec<u8>)
    ensures
        r@ == enc_real(bits),
        parse_real(r@) == Some(bits),
        wf_app_primitive(r@),
{
    let mut out: Vec<u8> = Vec::new();
    out.push(TAG_REAL * 16 + 4);
    out.push((bits >> 24) as u8);
    out.push((bits >> 16) as u8);
    out.push((bits >> 8) as u8);
    out.push(bits as u8);
    assert(out@ =~= enc_real(bits));
    proof {
        lemma_real_round_trip(bits);
    }
    out
}

/// Decodes an application-tagged real into the raw bits of its value; any
/// other tag is left to the caller as opaque bytes.
pub fn decode_real_value(data: &Vec<u8>) -> (r: Result<u32, DecodeError>)
    ensures
        match r {
            Ok(bits) => parse_real(data@) == Some(bits),
            Err(_) => parse_real(data@) is None,
        },
{
    if data.len() != 5 {
        return Err(DecodeError::InvalidLength);
    }
    if data[0] != TAG_REAL * 16 + 4 {
        return Err(DecodeError::InvalidTag);
    }
    let bits = crate::codec::read_word(data, 1, 4);
    Ok(bits)
}

/// A real decodes back to the bits it was encoded from.
pub proof fn lemma_real_round_trip(bits: u32)
    ensures
        parse_real(enc_real(bits)) == Some(bits),
        wf_app_primitive(enc_real(bits)),
{
    let s = enc_real(bits);
    assert(s.subrange(1, 5) =~= quad_bytes(bits));
    lemma_word_of_quad_bytes(bits);
    assert((0x44u8 / 8) % 2 == 0 && 0x44u8 % 8 == 4);
}

} // verus!
