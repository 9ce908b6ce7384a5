use vstd::prelude::*;

verus! {

/// Why a frame or a tagged value fails to decode.
#[derive(Clone, Copy, PartialEq, Eq, Structural, Debug)]
pub enum DecodeError {
    /// Fewer bytes than the layout demands.
    InvalidLength,
    /// A tag other than the expected one stands where a value is required.
    InvalidTag,
    /// A protocol version, PDU type or tag form this engine does not handle.
    UnsupportedType,
    /// A structurally malformed message body.
    InvalidFormat,
}

/// The numeric value of up to four big-endian bytes.
pub open spec fn word_of(s: Seq<u8>) -> int
    recommends
        s.len() <= 4,
{
    if s.len() == 0 {
        0
    } else if s.len() == 1 {
        s[0] as int
    } else if s.len() == 2 {
        (s[0] as int) * 0x100 + (s[1] as int)
    } else if s.len() == 3 {
        (s[0] as int) * 0x10000 + (s[1] as int) * 0x100 + (s[2] as int)
    } else {
        (s[0] as int) * 0x1000000 + (s[1] as int) * 0x10000 + (s[2] as int) * 0x100 + (s[3] as int)
    }
}

/// Minimal big-endian encoding of an unsigned value: one to four bytes,
/// zero taking a single byte.
pub open spec fn unsigned_bytes(v: u32) -> Seq<u8> {
    if v < 0x100 {
        seq![v as u8]
    } else if v < 0x10000 {
        seq![(v >> 8) as u8, v as u8]
    } else if v < 0x1000000 {
        seq![(v >> 16) as u8, (v >> 8) as u8, v as u8]
    } else {
        seq![(v >> 24) as u8, (v >> 16) as u8, (v >> 8) as u8, v as u8]
    }
}

/// Fixed four-byte big-endian encoding of a 32-bit word.
pub open spec fn quad_bytes(w: u32) -> Seq<u8> {
    seq![(w >> 24) as u8, (w >> 16) as u8, (w >> 8) as u8, w as u8]
}

/// The minimal encoding decodes back to the value it was made from.
pub proof fn lemma_word_of_unsigned_bytes(v: u32)
    ensures
        word_of(unsigned_bytes(v)) == v,
{
    if v < 0x100 {
        assert((v as u8) as int == v as int) by (bit_vector)
            requires
                v < 0x100,
        ;
    } else if v < 0x10000 {
        assert(((v >> 8) as u8) as int * 0x100 + ((v as u8) as int) == v as int) by (bit_vector)
            requires
                0x100 <= v < 0x10000,
        ;
    } else if v < 0x1000000 {
        assert(((v >> 16) as u8) as int * 0x10000 + ((v >> 8) as u8) as int * 0x100 + ((
        v as u8) as int) == v as int) by (bit_vector)
            requires
                0x10000 <= v < 0x1000000,
        ;
    } else {
        assert(((v >> 24) as u8) as int * 0x1000000 + ((v >> 16) as u8) as int * 0x10000 + ((v
            >> 8) as u8) as int * 0x100 + ((v as u8) as int) == v as int) by (bit_vector)
            requires
                0x1000000 <= v,
        ;
    }
}

pub proof fn lemma_word_of_quad_bytes(w: u32)
    ensures
        word_of(quad_bytes(w)) == w,
{
    assert(((w >> 24) as u8) as int * 0x1000000 + ((w >> 16) as u8) as int * 0x10000 + ((w
        >> 8) as u8) as int * 0x100 + ((w as u8) as int) == w as int) by (bit_vector);
}

/// Tag octet of an application-tagged value: tag number in the top nibble,
/// class bit clear, length in the low three bits.
pub open spec fn app_tag_byte(tag: u8, len: int) -> u8
    recommends
        tag <= 12,
        len <= 4,
{
    (tag * 16 + len) as u8
}

/// Tag octet of a context-tagged value: tag number in the top nibble,
/// class bit set, length in the low three bits.
pub open spec fn ctx_tag_byte(tag: u8, len: int) -> u8
    recommends
        tag <= 14,
        len <= 4,
{
    (tag * 16 + 8 + len) as u8
}

/// Opening tag octet of a constructed context value.
pub open spec fn opening_tag_byte(tag: u8) -> u8
    recommends
        tag <= 14,
{
    (tag * 16 + 8 + 6) as u8
}

/// Closing tag octet of a constructed context value.
pub open spec fn closing_tag_byte(tag: u8) -> u8
    recommends
        tag <= 14,
{
    (tag * 16 + 8 + 7) as u8
}

/// Application-tagged unsigned value, minimal length.
pub open spec fn enc_app_uint(tag: u8, v: u32) -> Seq<u8> {
    seq![app_tag_byte(tag, unsigned_bytes(v).len() as int)] + unsigned_bytes(v)
}

/// Application-tagged four-byte word (object identifiers, reals).
pub open spec fn enc_app_quad(tag: u8, w: u32) -> Seq<u8> {
    seq![app_tag_byte(tag, 4)] + quad_bytes(w)
}

/// Context-tagged unsigned value, minimal length.
pub open spec fn enc_ctx_uint(tag: u8, v: u32) -> Seq<u8> {
    seq![ctx_tag_byte(tag, unsigned_bytes(v).len() as int)] + unsigned_bytes(v)
}

/// Context-tagged four-byte word.
pub open spec fn enc_ctx_quad(tag: u8, w: u32) -> Seq<u8> {
    seq![ctx_tag_byte(tag, 4)] + quad_bytes(w)
}

/// Parses an application-tagged unsigned value with the given tag number at
/// `pos`: the class bit must be clear and the length one to four bytes.
pub open spec fn parse_app_uint(s: Seq<u8>, pos: int, tag: u8) -> Option<(u32, int)> {
    if 0 <= pos < s.len() {
        let b = s[pos];
        if b / 16 == tag && (b / 8) % 2 == 0 && 1 <= b % 8 <= 4 && pos + 1 + (b % 8) <= s.len() {
            Some((word_of(s.subrange(pos + 1, pos + 1 + (b % 8))) as u32, pos + 1 + (b % 8)))
        } else {
            None
        }
    } else {
        None
    }
}

/// Parses an application-tagged value whose length must be exactly four.
pub open spec fn parse_app_quad(s: Seq<u8>, pos: int, tag: u8) -> Option<(u32, int)> {
    if 0 <= pos < s.len() {
        let b = s[pos];
        if b / 16 == tag && (b / 8) % 2 == 0 && b % 8 == 4 && pos + 5 <= s.len() {
            Some((word_of(s.subrange(pos + 1, pos + 5)) as u32, pos + 5))
        } else {
            None
        }
    } else {
        None
    }
}

/// Parses a context-tagged unsigned value: the class bit must be set and the
/// length zero to four bytes.
pub open spec fn parse_ctx_uint(s: Seq<u8>, pos: int, tag: u8) -> Option<(u32, int)> {
    if 0 <= pos < s.len() {
        let b = s[pos];
        if b / 16 == tag && (b / 8) % 2 == 1 && b % 8 <= 4 && pos + 1 + (b % 8) <= s.len() {
            Some((word_of(s.subrange(pos + 1, pos + 1 + (b % 8))) as u32, pos + 1 + (b % 8)))
        } else {
            None
        }
    } else {
        None
    }
}

/// Parses a context-tagged value whose length must be exactly four.
pub open spec fn parse_ctx_quad(s: Seq<u8>, pos: int, tag: u8) -> Option<(u32, int)> {
    if 0 <= pos < s.len() {
        let b = s[pos];
        if b / 16 == tag && (b / 8) % 2 == 1 && b % 8 == 4 && pos + 5 <= s.len() {
            Some((word_of(s.subrange(pos + 1, pos + 5)) as u32, pos + 5))
        } else {
            None
        }
    } else {
        None
    }
}

proof fn lemma_tag_byte_fields(tag: u8, len: u8)
    requires
        tag <= 14,
        len <= 4,
    ensures
        (tag * 16 + len) as u8 / 16 == tag,
        ((tag * 16 + len) as u8 / 8) % 2 == 0,
        (tag * 16 + len) as u8 % 8 == len,
        (tag * 16 + 8 + len) as u8 / 16 == tag,
        ((tag * 16 + 8 + len) as u8 / 8) % 2 == 1,
        (tag * 16 + 8 + len) as u8 % 8 == len,
{
    assert((tag * 16 + len) as u8 / 16 == tag && ((tag * 16 + len) as u8 / 8) % 2 == 0 && (tag * 16
        + len) as u8 % 8 == len && (tag * 16 + 8 + len) as u8 / 16 == tag && ((tag * 16 + 8
        + len) as u8 / 8) % 2 == 1 && (tag * 16 + 8 + len) as u8 % 8 == len) by (bit_vector)
        requires
            tag <= 14 && len <= 4,
    ;
}

/// An application-tagged unsigned value parses back from wherever its
/// encoding stands in a longer buffer.
pub proof fn lemma_parse_app_uint_at(s: Seq<u8>, pos: int, tag: u8, v: u32)
    requires
        tag <= 12,
        0 <= pos,
        pos + enc_app_uint(tag, v).len() <= s.len(),
        s.subrange(pos, pos + enc_app_uint(tag, v).len()) == enc_app_uint(tag, v),
    ensures
        parse_app_uint(s, pos, tag) == Some((v, pos + enc_app_uint(tag, v).len())),
{
    let e = enc_app_uint(tag, v);
    let n = unsigned_bytes(v).len() as int;
    assert(s[pos] == e[0]);
    lemma_tag_byte_fields(tag, n as u8);
    assert(s.subrange(pos + 1, pos + 1 + n) =~= unsigned_bytes(v)) by {
        assert(forall|i: int|
            0 <= i < n ==> (#[trigger] s.subrange(pos + 1, pos + 1 + n)[i]) == s.subrange(
                pos,
                pos + 1 + n,
            )[i + 1]);
    }
    lemma_word_of_unsigned_bytes(v);
}

/// A context-tagged unsigned value parses back from wherever its encoding
/// stands in a longer buffer.
pub proof fn lemma_parse_ctx_uint_at(s: Seq<u8>, pos: int, tag: u8, v: u32)
    requires
        tag <= 14,
        0 <= pos,
        pos + enc_ctx_uint(tag, v).len() <= s.len(),
        s.subrange(pos, pos + enc_ctx_uint(tag, v).len()) == enc_ctx_uint(tag, v),
    ensures
        parse_ctx_uint(s, pos, tag) == Some((v, pos + enc_ctx_uint(tag, v).len())),
{
    let e = enc_ctx_uint(tag, v);
    let n = unsigned_bytes(v).len() as int;
    assert(s[pos] == e[0]);
    lemma_tag_byte_fields(tag, n as u8);
    assert(s.subrange(pos + 1, pos + 1 + n) =~= unsigned_bytes(v)) by {
        assert(forall|i: int|
            0 <= i < n ==> (#[trigger] s.subrange(pos + 1, pos + 1 + n)[i]) == s.subrange(
                pos,
                pos + 1 + n,
            )[i + 1]);
    }
    lemma_word_of_unsigned_bytes(v);
}

/// An application-tagged four-byte word parses back from wherever its
/// encoding stands in a longer buffer.
pub proof fn lemma_parse_app_quad_at(s: Seq<u8>, pos: int, tag: u8, w: u32)
    requires
        tag <= 12,
        0 <= pos,
        pos + 5 <= s.len(),
        s.subrange(pos, pos + 5) == enc_app_quad(tag, w),
    ensures
        parse_app_quad(s, pos, tag) == Some((w, pos + 5)),
{
    let e = enc_app_quad(tag, w);
    assert(s[pos] == e[0]);
    lemma_tag_byte_fields(tag, 4);
    assert(s.subrange(pos + 1, pos + 5) =~= quad_bytes(w)) by {
        assert(forall|i: int|
            0 <= i < 4 ==> (#[trigger] s.subrange(pos + 1, pos + 5)[i]) == s.subrange(
                pos,
                pos + 5,
            )[i + 1]);
    }
    lemma_word_of_quad_bytes(w);
}

/// A context-tagged four-byte word parses back from wherever its encoding
/// stands in a longer buffer.
pub proof fn lemma_parse_ctx_quad_at(s: Seq<u8>, pos: int, tag: u8, w: u32)
    requires
        tag <= 14,
        0 <= pos,
        pos + 5 <= s.len(),
        s.subrange(pos, pos + 5) == enc_ctx_quad(tag, w),
    ensures
        parse_ctx_quad(s, pos, tag) == Some((w, pos + 5)),
{
    let e = enc_ctx_quad(tag, w);
    assert(s[pos] == e[0]);
    lemma_tag_byte_fields(tag, 4);
    assert(s.subrange(pos + 1, pos + 5) =~= quad_bytes(w)) by {
        assert(forall|i: int|
            0 <= i < 4 ==> (#[trigger] s.subrange(pos + 1, pos + 5)[i]) == s.subrange(
                pos,
                pos + 5,
            )[i + 1]);
    }
    lemma_word_of_quad_bytes(w);
}

/// Appends the minimal big-endian bytes of `v`.
fn put_unsigned_bytes(out: &mut Vec<u8>, v: u32)
    ensures
        final(out)@ == old(out)@ + unsigned_bytes(v),
{
    if v < 0x100 {
        out.push(v as u8);
        assert(final(out)@ =~= old(out)@ + unsigned_bytes(v));
    } else if v < 0x10000 {
        out.push((v >> 8) as u8);
        out.push(v as u8);
        assert(final(out)@ =~= old(out)@ + unsigned_bytes(v));
    } else if v < 0x1000000 {
        out.push((v >> 16) as u8);
        out.push((v >> 8) as u8);
        out.push(v as u8);
        assert(final(out)@ =~= old(out)@ + unsigned_bytes(v));
    } else {
        out.push((v >> 24) as u8);
        out.push((v >> 16) as u8);
        out.push((v >> 8) as u8);
        out.push(v as u8);
        assert(final(out)@ =~= old(out)@ + unsigned_bytes(v));
    }
}

/// Appends an application-tagged unsigned value.
pub fn put_app_uint(out: &mut Vec<u8>, tag: u8, v: u32)
    requires
        tag <= 12,
    ensures
        final(out)@ == old(out)@ + enc_app_uint(tag, v),
{
    let len: u8 = if v < 0x100 {
        1
    } else if v < 0x10000 {
        2
    } else if v < 0x1000000 {
        3
    } else {
        4
    };
    out.push(tag * 16 + len);
    put_unsigned_bytes(out, v);
    assert(final(out)@ =~= old(out)@ + enc_app_uint(tag, v));
}

/// Appends a context-tagged unsigned value.
pub fn put_ctx_uint(out: &mut Vec<u8>, tag: u8, v: u32)
    requires
        tag <= 14,
    ensures
        final(out)@ == old(out)@ + enc_ctx_uint(tag, v),
{
    let len: u8 = if v < 0x100 {
        1
    } else if v < 0x10000 {
        2
    } else if v < 0x1000000 {
        3
    } else {
        4
    };
    out.push(tag * 16 + 8 + len);
    put_unsigned_bytes(out, v);
    assert(final(out)@ =~= old(out)@ + enc_ctx_uint(tag, v));
}

fn put_quad_bytes(out: &mut Vec<u8>, w: u32)
    ensures
        final(out)@ == old(out)@ + quad_bytes(w),
{
    out.push((w >> 24) as u8);
    out.push((w >> 16) as u8);
    out.push((w >> 8) as u8);
    out.push(w as u8);
    assert(final(out)@ =~= old(out)@ + quad_bytes(w));
}

/// Appends an application-tagged four-byte word.
pub fn put_app_quad(out: &mut Vec<u8>, tag: u8, w: u32)
    requires
        tag <= 12,
    ensures
        final(out)@ == old(out)@ + enc_app_quad(tag, w),
{
    out.push(tag * 16 + 4);
    put_quad_bytes(out, w);
    assert(final(out)@ =~= old(out)@ + enc_app_quad(tag, w));
}

/// Appends a context-tagged four-byte word.
pub fn put_ctx_quad(out: &mut Vec<u8>, tag: u8, w: u32)
    requires
        tag <= 14,
    ensures
        final(out)@ == old(out)@ + enc_ctx_quad(tag, w),
{
    out.push(tag * 16 + 8 + 4);
    put_quad_bytes(out, w);
    assert(final(out)@ =~= old(out)@ + enc_ctx_quad(tag, w));
}

/// Reads the value of `n` big-endian bytes at `pos`.
pub fn read_word(data: &Vec<u8>, pos: usize, n: usize) -> (r: u32)
    requires
        n <= 4,
        pos + n <= data@.len(),
    ensures
        r == word_of(data@.subrange(pos as int, pos + n)),
{
    // binding the length pins data@.len() into usize range, which bounds
    // every pos + k below
    let _len = data.len();
    let mut v: u32 = 0;
    if n >= 1 {
        v = data[pos] as u32;
    }
    if n >= 2 {
        v = v * 0x100 + data[pos + 1] as u32;
    }
    if n >= 3 {
        v = v * 0x100 + data[pos + 2] as u32;
    }
    if n >= 4 {
        v = v * 0x100 + data[pos + 3] as u32;
    }
    proof {
        let s = data@.subrange(pos as int, pos + n);
        assert(forall|i: int| 0 <= i < n ==> s[i] == data@[pos + i]);
    }
    v
}

/// Reads an application-tagged unsigned value with the given tag number.
pub fn read_app_uint(data: &Vec<u8>, pos: usize, tag: u8) -> (r: Result<(u32, usize), DecodeError>)
    requires
        pos <= data@.len(),
    ensures
        match r {
            Ok((v, next)) => parse_app_uint(data@, pos as int, tag) == Some((v, next as int))
                && pos < next <= data@.len(),
            Err(_) => parse_app_uint(data@, pos as int, tag) is None,
        },
{
    if pos >= data.len() {
        return Err(DecodeError::InvalidLength);
    }
    let b = data[pos];
    if b / 16 != tag || (b / 8) % 2 != 0 {
        return Err(DecodeError::InvalidTag);
    }
    let n = (b % 8) as usize;
    if n < 1 || n > 4 {
        return Err(DecodeError::UnsupportedType);
    }
    if data.len() - pos - 1 < n {
        return Err(DecodeError::InvalidLength);
    }
    let v = read_word(data, pos + 1, n);
    Ok((v, pos + 1 + n))
}

/// Reads a context-tagged unsigned value with the given tag number.
pub fn read_ctx_uint(data: &Vec<u8>, pos: usize, tag: u8) -> (r: Result<(u32, usize), DecodeError>)
    requires
        pos <= data@.len(),
    ensures
        match r {
            Ok((v, next)) => parse_ctx_uint(data@, pos as int, tag) == Some((v, next as int))
                && pos < next <= data@.len(),
            Err(_) => parse_ctx_uint(data@, pos as int, tag) is None,
        },
{
    if pos >= data.len() {
        return Err(DecodeError::InvalidLength);
    }
    let b = data[pos];
    if b / 16 != tag || (b / 8) % 2 != 1 {
        return Err(DecodeError::InvalidTag);
    }
    let n = (b % 8) as usize;
    if n > 4 {
        return Err(DecodeError::UnsupportedType);
    }
    if data.len() - pos - 1 < n {
        return Err(DecodeError::InvalidLength);
    }
    let v = read_word(data, pos + 1, n);
    Ok((v, pos + 1 + n))
}

/// Reads an application-tagged four-byte word with the given tag number.
pub fn read_app_quad(data: &Vec<u8>, pos: usize, tag: u8) -> (r: Result<(u32, usize), DecodeError>)
    requires
        pos <= data@.len(),
    ensures
        match r {
            Ok((w, next)) => parse_app_quad(data@, pos as int, tag) == Some((w, next as int))
                && pos < next <= data@.len(),
            Err(_) => parse_app_quad(data@, pos as int, tag) is None,
        },
{
    if pos >= data.len() {
        return Err(DecodeError::InvalidLength);
    }
    let b = data[pos];
    if b / 16 != tag || (b / 8) % 2 != 0 {
        return Err(DecodeError::InvalidTag);
    }
    if b % 8 != 4 {
        return Err(DecodeError::UnsupportedType);
    }
    if data.len() - pos < 5 {
        return Err(DecodeError::InvalidLength);
    }
    let w = read_word(data, pos + 1, 4);
    Ok((w, pos + 5))
}

/// Reads a context-tagged four-byte word with the given tag number.
pub fn read_ctx_quad(data: &Vec<u8>, pos: usize, tag: u8) -> (r: Result<(u32, usize), DecodeError>)
    requires
        pos <= data@.len(),
    ensures
        match r {
            Ok((w, next)) => parse_ctx_quad(data@, pos as int, tag) == Some((w, next as int))
                && pos < next <= data@.len(),
            Err(_) => parse_ctx_quad(data@, pos as int, tag) is None,
        },
{
    if pos >= data.len() {
        return Err(DecodeError::InvalidLength);
    }
    let b = data[pos];
    if b / 16 != tag || (b / 8) % 2 != 1 {
        return Err(DecodeError::InvalidTag);
    }
    if b % 8 != 4 {
        return Err(DecodeError::UnsupportedType);
    }
    if data.len() - pos < 5 {
        return Err(DecodeError::InvalidLength);
    }
    let w = read_word(data, pos + 1, 4);
    Ok((w, pos + 5))
}

/// Copies `data[start..end]` into a fresh vector.
pub fn copy_range(data: &Vec<u8>, start: usize, end: usize) -> (r: Vec<u8>)
    requires
        start <= end <= data@.len(),
    ensures
        r@ == data@.subrange(start as int, end as int),
{
    let mut r: Vec<u8> = Vec::new();
    let mut i = start;
    while i < end
        invariant
            start <= i <= end <= data@.len(),
            r@ == data@.subrange(start as int, i as int),
        decreases end - i,
    {
        r.push(data[i]);
        i = i + 1;
        assert(r@ =~= data@.subrange(start as int, i as int));
    }
    r
}

} // verus!
