use vstd::prelude::*;
use vstd::utf8::{decode_utf8, encode_utf8, valid_utf8};

use crate::names::owned;
use crate::protocol::codec::{
    decode_varuint, encode_varuint, varint_bytes, varuint_parse, ReadFault, ReadingError, VarInt,
    WritingError,
};
use crate::util::resource_location::{
    has_char, lemma_first_colon, parse_spec, split_at_first_colon, text_of, ResourceLocation,
};

verus! {

/// The byte of a boolean.
pub open spec fn bool_byte(b: bool) -> u8 {
    if b {
        1
    } else {
        0
    }
}

/// The big-endian bytes of a 32-bit number.
pub open spec fn be32(v: u32) -> Seq<u8> {
    seq![(v >> 24u32) as u8, (v >> 16u32) as u8, (v >> 8u32) as u8, v as u8]
}

/// The big-endian bytes of a 64-bit number.
pub open spec fn be64(v: u64) -> Seq<u8> {
    seq![
        (v >> 56u64) as u8,
        (v >> 48u64) as u8,
        (v >> 40u64) as u8,
        (v >> 32u64) as u8,
        (v >> 24u64) as u8,
        (v >> 16u64) as u8,
        (v >> 8u64) as u8,
        v as u8,
    ]
}

/// The big-endian bytes of a 16-bit number.
pub open spec fn be16(v: u16) -> Seq<u8> {
    seq![(v >> 8u16) as u8, v as u8]
}

/// The bytes of a fixed-size bit set of `bits` bits: `ceil(bits / 8)` bytes, taken from `set`
/// and padded with zeros.
pub open spec fn fixed_bitset_bytes(bits: nat, set: Seq<u8>) -> Seq<u8> {
    Seq::new(
        bits / 8 + if bits % 8 != 0 {
            1nat
        } else {
            0nat
        },
        |i: int| if i < set.len() { set[i] } else { 0u8 },
    )
}

/// The bytes of a string: its length in bytes as a variable-length number, then its UTF-8 bytes.
pub open spec fn string_bytes(s: Seq<char>) -> Seq<u8> {
    varint_bytes(encode_utf8(s).len() as u32) + encode_utf8(s)
}

/// The longest string that `write_string` accepts, in bytes.
pub open spec fn string_bound() -> nat {
    32767
}

/// Reads a length-prefixed UTF-8 string of at most `bound` bytes from the start of `s`.
pub open spec fn string_parse(s: Seq<u8>, bound: nat) -> Result<(Seq<char>, nat), ReadFault> {
    match varuint_parse(s) {
        Err(e) => Err(e),
        Ok((n, k)) => if n > bound {
            Err(ReadFault::TooLarge)
        } else if s.len() < k + n {
            Err(ReadFault::Incomplete)
        } else if !valid_utf8(s.subrange(k as int, k + n)) {
            Err(ReadFault::Invalid)
        } else {
            Ok((decode_utf8(s.subrange(k as int, k + n)), (k + n) as nat))
        },
    }
}

/// Reads an identifier written `namespace:path` from the start of `s`.
pub open spec fn resource_location_parse(s: Seq<u8>) -> Result<
    ((Seq<char>, Seq<char>), nat),
    ReadFault,
> {
    match string_parse(s, ResourceLocation::MAX_SIZE as nat) {
        Err(e) => Err(e),
        Ok((text, n)) => if has_char(text, ':') {
            Ok((parse_spec(text), n))
        } else {
            Err(ReadFault::Incomplete)
        },
    }
}

/// Reads one byte from the start of `s`.
pub open spec fn byte_parse(s: Seq<u8>) -> Result<(u8, nat), ReadFault> {
    if s.len() == 0 {
        Err(ReadFault::Incomplete)
    } else {
        Ok((s[0], 1))
    }
}

/// `r` reports the outcome `p` of a read that started at `pos`.
pub open spec fn read_matches<T>(
    r: Result<(T, usize), ReadingError>,
    p: Result<(T, nat), ReadFault>,
    pos: usize,
) -> bool {
    match p {
        Ok((v, n)) => r matches Ok((x, q)) && x == v && q == pos + n,
        Err(ReadFault::Incomplete) => r matches Err(ReadingError::Incomplete(_)),
        Err(ReadFault::TooLarge) => r matches Err(ReadingError::TooLarge(_)),
        Err(ReadFault::Invalid) => r matches Err(ReadingError::Message(_)),
    }
}

/// Decodes UTF-8 bytes into a string, as `String::from_utf8` does: the string when the bytes
/// are valid UTF-8, else the error's message.
#[verifier::external_body]
fn string_from_utf8(bytes: &[u8]) -> (r: Result<String, String>)
    ensures
        r is Ok <==> valid_utf8(bytes@),
        r matches Ok(s) ==> s@ == decode_utf8(bytes@),
{
    String::from_utf8(bytes.to_vec()).map_err(|e| e.to_string())
}

/// Appends a boolean as one byte.
pub fn write_bool(out: &mut Vec<u8>, data: bool)
    ensures
        final(out)@ == old(out)@.push(bool_byte(data)),
{
    if data {
        out.push(1u8);
    } else {
        out.push(0u8);
    }
}

/// Appends one byte.
pub fn write_u8(out: &mut Vec<u8>, data: u8)
    ensures
        final(out)@ == old(out)@.push(data),
{
    out.push(data);
}

/// Appends a signed byte.
pub fn write_i8(out: &mut Vec<u8>, data: i8)
    ensures
        final(out)@ == old(out)@.push(data as u8),
{
    out.push(data as u8);
}

/// Appends a 32-bit number in big-endian order.
pub fn write_i32_be(out: &mut Vec<u8>, data: i32)
    ensures
        final(out)@ == old(out)@ + be32(data as u32),
{
    let v = data as u32;
    out.push((v >> 24u32) as u8);
    out.push((v >> 16u32) as u8);
    out.push((v >> 8u32) as u8);
    out.push(v as u8);
    assert(out@ =~= old(out)@ + be32(data as u32));
}

/// Appends a 64-bit number in big-endian order.
pub fn write_i64_be(out: &mut Vec<u8>, data: i64)
    ensures
        final(out)@ == old(out)@ + be64(data as u64),
{
    let v = data as u64;
    out.push((v >> 56u64) as u8);
    out.push((v >> 48u64) as u8);
    out.push((v >> 40u64) as u8);
    out.push((v >> 32u64) as u8);
    out.push((v >> 24u64) as u8);
    out.push((v >> 16u64) as u8);
    out.push((v >> 8u64) as u8);
    out.push(v as u8);
    assert(out@ =~= old(out)@ + be64(data as u64));
}

/// Appends a 16-bit number in big-endian order.
pub fn write_u16_be(out: &mut Vec<u8>, data: u16)
    ensures
        final(out)@ == old(out)@ + be16(data),
{
    out.push((data >> 8u16) as u8);
    out.push(data as u8);
    assert(out@ =~= old(out)@ + be16(data));
}

/// Appends a signed 16-bit number in big-endian order.
pub fn write_i16_be(out: &mut Vec<u8>, data: i16)
    ensures
        final(out)@ == old(out)@ + be16(data as u16),
{
    write_u16_be(out, data as u16);
}

/// Appends an unsigned 32-bit number in big-endian order.
pub fn write_u32_be(out: &mut Vec<u8>, data: u32)
    ensures
        final(out)@ == old(out)@ + be32(data),
{
    out.push((data >> 24u32) as u8);
    out.push((data >> 16u32) as u8);
    out.push((data >> 8u32) as u8);
    out.push(data as u8);
    assert(out@ =~= old(out)@ + be32(data));
}

/// Appends an unsigned 64-bit number in big-endian order.
pub fn write_u64_be(out: &mut Vec<u8>, data: u64)
    ensures
        final(out)@ == old(out)@ + be64(data),
{
    out.push((data >> 56u64) as u8);
    out.push((data >> 48u64) as u8);
    out.push((data >> 40u64) as u8);
    out.push((data >> 32u64) as u8);
    out.push((data >> 24u64) as u8);
    out.push((data >> 16u64) as u8);
    out.push((data >> 8u64) as u8);
    out.push(data as u8);
    assert(out@ =~= old(out)@ + be64(data));
}

/// Appends a fixed-size bit set of `bits` bits: `ceil(bits / 8)` bytes, copied from `bit_set`
/// as far as it reaches and zero after.
pub fn write_fixed_bitset(out: &mut Vec<u8>, bits: usize, bit_set: &[u8])
    ensures
        final(out)@ == old(out)@ + fixed_bitset_bytes(bits as nat, bit_set@),
{
    let new_length = bits / 8 + if bits % 8 != 0 {
        1
    } else {
        0
    };
    let mut i: usize = 0;
    while i < new_length
        invariant
            0 <= i <= new_length,
            new_length == fixed_bitset_bytes(bits as nat, bit_set@).len(),
            out@ == old(out)@ + fixed_bitset_bytes(bits as nat, bit_set@).take(i as int),
        decreases new_length - i,
    {
        let b = if i < bit_set.len() {
            bit_set[i]
        } else {
            0u8
        };
        out.push(b);
        assert(fixed_bitset_bytes(bits as nat, bit_set@).take(i as int + 1) =~= fixed_bitset_bytes(
            bits as nat,
            bit_set@,
        ).take(i as int).push(b));
        i += 1;
    }
    assert(fixed_bitset_bytes(bits as nat, bit_set@).take(new_length as int) =~= fixed_bitset_bytes(
        bits as nat,
        bit_set@,
    ));
}

/// Appends bytes as they are.
pub fn write_slice(out: &mut Vec<u8>, data: &[u8])
    ensures
        final(out)@ == old(out)@ + data@,
{
    let mut i: usize = 0;
    while i < data.len()
        invariant
            0 <= i <= data@.len(),
            out@ == old(out)@ + data@.take(i as int),
        decreases data@.len() - i,
    {
        out.push(data[i]);
        assert(data@.take(i as int + 1) =~= data@.take(i as int).push(data@[i as int]));
        assert(out@ =~= old(out)@ + data@.take(i as int + 1));
        i += 1;
    }
    assert(data@.take(data@.len() as int) =~= data@);
}

/// Appends a number in the variable-length encoding.
pub fn write_var_int(out: &mut Vec<u8>, data: &VarInt)
    ensures
        final(out)@ == old(out)@ + varint_bytes(data.0 as u32),
{
    data.encode(out)
}

/// Appends a length-prefixed string of at most `bound` bytes.
pub fn write_string_bounded(out: &mut Vec<u8>, data: &str, bound: usize) -> (r: Result<
    (),
    WritingError,
>)
    requires
        encode_utf8(data@).len() <= bound,
    ensures
        encode_utf8(data@).len() <= i32::MAX ==> r is Ok && final(out)@ == old(out)@
            + string_bytes(data@),
        encode_utf8(data@).len() > i32::MAX ==> (r matches Err(WritingError::Message(_))),
        encode_utf8(data@).len() > i32::MAX ==> final(out)@ == old(out)@,
{
    let bytes = data.as_bytes();
    if bytes.len() > 0x7fff_ffff {
        return Err(WritingError::Message(owned("string length isn't representable as a VarInt")));
    }
    encode_varuint(bytes.len() as u32, out);
    write_slice(out, bytes);
    assert(out@ =~= old(out)@ + string_bytes(data@));
    Ok(())
}

/// Appends a length-prefixed string of at most 32767 bytes.
pub fn write_string(out: &mut Vec<u8>, data: &str)
    requires
        encode_utf8(data@).len() <= string_bound(),
    ensures
        final(out)@ == old(out)@ + string_bytes(data@),
{
    let r = write_string_bounded(out, data, 32767);
}

/// Appends an identifier as the string `namespace:path`.
pub fn write_resource_location(out: &mut Vec<u8>, data: &ResourceLocation)
    requires
        encode_utf8(text_of(data@)).len() <= ResourceLocation::MAX_SIZE,
    ensures
        final(out)@ == old(out)@ + string_bytes(text_of(data@)),
{
    let text = data.to_string();
    let r = write_string_bounded(out, text.as_str(), ResourceLocation::MAX_SIZE);
}

/// Reads one byte.
pub fn get_u8(data: &[u8], pos: usize) -> (r: Result<(u8, usize), ReadingError>)
    requires
        pos <= data@.len(),
    ensures
        read_matches(r, byte_parse(data@.skip(pos as int)), pos),
{
    if pos < data.len() {
        Ok((data[pos], pos + 1))
    } else {
        Err(ReadingError::Incomplete(owned("failed to fill whole buffer")))
    }
}

/// Reads a signed byte.
pub fn get_i8(data: &[u8], pos: usize) -> (r: Result<(i8, usize), ReadingError>)
    requires
        pos <= data@.len(),
    ensures
        match byte_parse(data@.skip(pos as int)) {
            Ok((b, n)) => r matches Ok((x, q)) && x == b as i8 && q == pos + n,
            Err(_) => r matches Err(ReadingError::Incomplete(_)),
        },
{
    match get_u8(data, pos) {
        Ok((b, p)) => Ok((b as i8, p)),
        Err(e) => Err(e),
    }
}

/// Reads a boolean: any byte but zero is true.
pub fn get_bool(data: &[u8], pos: usize) -> (r: Result<(bool, usize), ReadingError>)
    requires
        pos <= data@.len(),
    ensures
        match byte_parse(data@.skip(pos as int)) {
            Ok((b, n)) => r matches Ok((x, q)) && x == (b != 0) && q == pos + n,
            Err(_) => r matches Err(ReadingError::Incomplete(_)),
        },
{
    match get_u8(data, pos) {
        Ok((b, p)) => Ok((b != 0, p)),
        Err(e) => Err(e),
    }
}

/// Reads a variable-length signed number.
pub fn get_var_int(data: &[u8], pos: usize) -> (r: Result<(VarInt, usize), ReadingError>)
    requires
        pos <= data@.len(),
    ensures
        match varuint_parse(data@.skip(pos as int)) {
            Ok((v, n)) => r matches Ok((x, q)) && x.0 == v as i32 && q == pos + n,
            Err(ReadFault::Incomplete) => r matches Err(ReadingError::Incomplete(_)),
            Err(_) => r matches Err(ReadingError::TooLarge(_)),
        },
{
    VarInt::decode(data, pos)
}

/// Reads a big-endian unsigned 16-bit number.
pub fn get_u16_be(data: &[u8], pos: usize) -> (r: Result<(u16, usize), ReadingError>)
    requires
        pos <= data@.len(),
    ensures
        data@.len() - pos >= 2 ==> (r matches Ok((v, q)) && be16(v) == data@.subrange(pos as int, pos + 2) && q == pos + 2),
        data@.len() - pos < 2 ==> r matches Err(ReadingError::Incomplete(_)),
{
    if data.len() - pos < 2 {
        return Err(ReadingError::Incomplete(owned("failed to fill whole buffer")));
    }
    let b0 = data[pos];
    let b1 = data[pos + 1];
    let v: u16 = ((b0 as u16) << 8u16) | (b1 as u16);
    assert((v >> 8u16) as u8 == b0 && v as u8 == b1) by (bit_vector)
        requires
            v == ((b0 as u16) << 8u16) | (b1 as u16),
    ;
    assert(be16(v) =~= data@.subrange(pos as int, pos + 2));
    Ok((v, pos + 2))
}

/// Reads a big-endian signed 16-bit number.
pub fn get_i16_be(data: &[u8], pos: usize) -> (r: Result<(i16, usize), ReadingError>)
    requires
        pos <= data@.len(),
    ensures
        data@.len() - pos >= 2 ==> (r matches Ok((v, q)) && be16(v as u16) == data@.subrange(pos as int, pos + 2) && q == pos + 2),
        data@.len() - pos < 2 ==> r matches Err(ReadingError::Incomplete(_)),
{
    match get_u16_be(data, pos) {
        Ok((v, q)) => {
            assert((v as i16) as u16 == v) by (bit_vector);
            Ok((v as i16, q))
        },
        Err(e) => Err(e),
    }
}

/// Reads a big-endian unsigned 32-bit number.
pub fn get_u32_be(data: &[u8], pos: usize) -> (r: Result<(u32, usize), ReadingError>)
    requires
        pos <= data@.len(),
    ensures
        data@.len() - pos >= 4 ==> (r matches Ok((v, q)) && be32(v) == data@.subrange(pos as int, pos + 4) && q == pos + 4),
        data@.len() - pos < 4 ==> r matches Err(ReadingError::Incomplete(_)),
{
    if data.len() - pos < 4 {
        return Err(ReadingError::Incomplete(owned("failed to fill whole buffer")));
    }
    let b0 = data[pos];
    let b1 = data[pos + 1];
    let b2 = data[pos + 2];
    let b3 = data[pos + 3];
    let v: u32 = ((b0 as u32) << 24u32) | ((b1 as u32) << 16u32) | ((b2 as u32) << 8u32) | (b3 as u32);
    assert((v >> 24u32) as u8 == b0 && (v >> 16u32) as u8 == b1 && (v >> 8u32) as u8 == b2 && v as u8
        == b3) by (bit_vector)
        requires
            v == ((b0 as u32) << 24u32) | ((b1 as u32) << 16u32) | ((b2 as u32) << 8u32) | (b3 as u32),
    ;
    assert(be32(v) =~= data@.subrange(pos as int, pos + 4));
    Ok((v, pos + 4))
}

/// Reads a big-endian signed 32-bit number.
pub fn get_i32_be(data: &[u8], pos: usize) -> (r: Result<(i32, usize), ReadingError>)
    requires
        pos <= data@.len(),
    ensures
        data@.len() - pos >= 4 ==> (r matches Ok((v, q)) && be32(v as u32) == data@.subrange(pos as int, pos + 4) && q == pos + 4),
        data@.len() - pos < 4 ==> r matches Err(ReadingError::Incomplete(_)),
{
    match get_u32_be(data, pos) {
        Ok((v, q)) => {
            assert((v as i32) as u32 == v) by (bit_vector);
            Ok((v as i32, q))
        },
        Err(e) => Err(e),
    }
}

/// Reads a big-endian unsigned 64-bit number.
pub fn get_u64_be(data: &[u8], pos: usize) -> (r: Result<(u64, usize), ReadingError>)
    requires
        pos <= data@.len(),
    ensures
        data@.len() - pos >= 8 ==> (r matches Ok((v, q)) && be64(v) == data@.subrange(pos as int, pos + 8) && q == pos + 8),
        data@.len() - pos < 8 ==> r matches Err(ReadingError::Incomplete(_)),
{
    if data.len() - pos < 8 {
        return Err(ReadingError::Incomplete(owned("failed to fill whole buffer")));
    }
    let hi = match get_u32_be(data, pos) {
        Ok((v, _)) => v,
        Err(e) => return Err(e),
    };
    let lo = match get_u32_be(data, pos + 4) {
        Ok((v, _)) => v,
        Err(e) => return Err(e),
    };
    let v: u64 = ((hi as u64) << 32u64) | (lo as u64);
    assert((v >> 56u64) as u8 == (hi >> 24u32) as u8 && (v >> 48u64) as u8 == (hi >> 16u32) as u8
        && (v >> 40u64) as u8 == (hi >> 8u32) as u8 && (v >> 32u64) as u8 == hi as u8 && (v
        >> 24u64) as u8 == (lo >> 24u32) as u8 && (v >> 16u64) as u8 == (lo >> 16u32) as u8 && (v
        >> 8u64) as u8 == (lo >> 8u32) as u8 && v as u8 == lo as u8) by (bit_vector)
        requires
            v == ((hi as u64) << 32u64) | (lo as u64),
    ;
    assert(be64(v) =~= be32(hi) + be32(lo));
    assert(data@.subrange(pos as int, pos + 8) =~= data@.subrange(pos as int, pos + 4)
        + data@.subrange(pos + 4, pos + 8));
    Ok((v, pos + 8))
}

/// Reads a big-endian signed 64-bit number.
pub fn get_i64_be(data: &[u8], pos: usize) -> (r: Result<(i64, usize), ReadingError>)
    requires
        pos <= data@.len(),
    ensures
        data@.len() - pos >= 8 ==> (r matches Ok((v, q)) && be64(v as u64) == data@.subrange(pos as int, pos + 8) && q == pos + 8),
        data@.len() - pos < 8 ==> r matches Err(ReadingError::Incomplete(_)),
{
    match get_u64_be(data, pos) {
        Ok((v, q)) => {
            assert((v as i64) as u64 == v) by (bit_vector);
            Ok((v as i64, q))
        },
        Err(e) => Err(e),
    }
}

/// Reads `count` bytes as they are.
pub fn read_boxed_slice(data: &[u8], pos: usize, count: usize) -> (r: Result<(Vec<u8>, usize), ReadingError>)
    requires
        pos <= data@.len(),
    ensures
        count <= data@.len() - pos ==> (r matches Ok((v, q)) && v@ == data@.subrange(pos as int, pos + count) && q == pos + count),
        count > data@.len() - pos ==> r matches Err(ReadingError::Incomplete(_)),
{
    if count > data.len() - pos {
        return Err(ReadingError::Incomplete(owned("failed to fill whole buffer")));
    }
    let mut v: Vec<u8> = Vec::new();
    write_slice(&mut v, &data[pos..pos + count]);
    Ok((v, pos + count))
}

/// Reads everything left, refusing more than `bound` bytes.
pub fn read_remaining_to_boxed_slice(data: &[u8], pos: usize, bound: usize) -> (r: Result<
    (Vec<u8>, usize),
    ReadingError,
>)
    requires
        pos <= data@.len(),
    ensures
        data@.len() - pos <= bound ==> (r matches Ok((v, q)) && v@ == data@.skip(pos as int) && q
            == data@.len()),
        data@.len() - pos > bound ==> r matches Err(ReadingError::TooLarge(_)),
{
    if data.len() - pos > bound {
        return Err(ReadingError::TooLarge(owned("Read remaining too long")));
    }
    let mut v: Vec<u8> = Vec::new();
    write_slice(&mut v, &data[pos..data.len()]);
    assert(v@ =~= data@.skip(pos as int));
    Ok((v, data.len()))
}

/// Reads a fixed-size bit set of `bits` bits: `ceil(bits / 8)` bytes.
pub fn get_fixed_bitset(data: &[u8], pos: usize, bits: usize) -> (r: Result<(Vec<u8>, usize), ReadingError>)
    requires
        pos <= data@.len(),
    ensures
        ({
            let n = fixed_bitset_bytes(bits as nat, Seq::empty()).len();
            &&& n <= data@.len() - pos ==> (r matches Ok((v, q)) && v@ == data@.subrange(pos as int, pos + n) && q == pos + n)
            &&& n > data@.len() - pos ==> r matches Err(ReadingError::Incomplete(_))
        }),
{
    let n = bits / 8 + if bits % 8 != 0 {
        1
    } else {
        0
    };
    read_boxed_slice(data, pos, n)
}

/// Reads a length-prefixed UTF-8 string of at most `bound` bytes.
pub fn get_string_bounded(data: &[u8], pos: usize, bound: usize) -> (r: Result<
    (String, usize),
    ReadingError,
>)
    requires
        pos <= data@.len(),
    ensures
        match string_parse(data@.skip(pos as int), bound as nat) {
            Ok((s, n)) => r matches Ok((x, q)) && x@ == s && q == pos + n,
            Err(ReadFault::Incomplete) => r matches Err(ReadingError::Incomplete(_)),
            Err(ReadFault::TooLarge) => r matches Err(ReadingError::TooLarge(_)),
            Err(ReadFault::Invalid) => r matches Err(ReadingError::Message(_)),
        },
{
    let ghost s = data@.skip(pos as int);
    let (size, p) = match decode_varuint(data, pos) {
        Ok(v) => v,
        Err(e) => {
            return Err(e);
        },
    };
    let size = size as usize;
    if size > bound {
        return Err(ReadingError::TooLarge(owned("string")));
    }
    if data.len() - p < size {
        return Err(ReadingError::Incomplete(owned("failed to fill whole buffer")));
    }
    let bytes = &data[p..p + size];
    assert(bytes@ =~= s.subrange((p - pos) as int, (p - pos) + size));
    match string_from_utf8(bytes) {
        Ok(text) => Ok((text, p + size)),
        Err(message) => Err(ReadingError::Message(message)),
    }
}

/// Reads a length-prefixed UTF-8 string of any length.
pub fn get_string(data: &[u8], pos: usize) -> (r: Result<(String, usize), ReadingError>)
    requires
        pos <= data@.len(),
    ensures
        match string_parse(data@.skip(pos as int), i32::MAX as nat) {
            Ok((s, n)) => r matches Ok((x, q)) && x@ == s && q == pos + n,
            Err(ReadFault::Incomplete) => r matches Err(ReadingError::Incomplete(_)),
            Err(ReadFault::TooLarge) => r matches Err(ReadingError::TooLarge(_)),
            Err(ReadFault::Invalid) => r matches Err(ReadingError::Message(_)),
        },
{
    get_string_bounded(data, pos, 0x7fff_ffff)
}

/// Reads an identifier written `namespace:path`; one without a colon is refused.
pub fn get_resource_location(data: &[u8], pos: usize) -> (r: Result<
    (ResourceLocation, usize),
    ReadingError,
>)
    requires
        pos <= data@.len(),
    ensures
        match resource_location_parse(data@.skip(pos as int)) {
            Ok((id, n)) => r matches Ok((x, q)) && x@ == id && q == pos + n,
            Err(ReadFault::Incomplete) => r matches Err(ReadingError::Incomplete(_)),
            Err(ReadFault::TooLarge) => r matches Err(ReadingError::TooLarge(_)),
            Err(ReadFault::Invalid) => r matches Err(ReadingError::Message(_)),
        },
{
    let (text, p) = match get_string_bounded(data, pos, ResourceLocation::MAX_SIZE) {
        Ok(v) => v,
        Err(e) => {
            return Err(e);
        },
    };
    match split_at_first_colon(text.as_str()) {
        Some((namespace, path)) => {
            proof {
                lemma_first_colon(text@, namespace@, path@);
            }
            Ok((ResourceLocation::new(namespace, path), p))
        },
        None => Err(ReadingError::Incomplete(owned("ResourceLocation"))),
    }
}

/// Reads an optional value: a boolean, then, when it is true, the value that `parse` reads
/// after it.
pub fn get_option<G, F: FnOnce(&[u8], usize) -> Result<(G, usize), ReadingError>>(
    data: &[u8],
    pos: usize,
    parse: F,
) -> (r: Result<(Option<G>, usize), ReadingError>)
    requires
        pos <= data@.len(),
        pos < data@.len() && data@[pos as int] != 0 ==> call_requires(parse, (data, (pos + 1) as usize)),
    ensures
        pos == data@.len() ==> r matches Err(ReadingError::Incomplete(_)),
        pos < data@.len() && data@[pos as int] == 0 ==> (r matches Ok((None, q)) && q == pos + 1),
        pos < data@.len() && data@[pos as int] != 0 ==> match r {
            Ok((Some(g), q)) => call_ensures(parse, (data, (pos + 1) as usize), Ok((g, q))),
            Ok((None, _)) => false,
            Err(e) => call_ensures(parse, (data, (pos + 1) as usize), Err(e)),
        },
{
    let (present, p) = match get_bool(data, pos) {
        Ok(v) => v,
        Err(e) => {
            return Err(e);
        },
    };
    if present {
        match parse(data, p) {
            Ok((g, q)) => Ok((Some(g), q)),
            Err(e) => Err(e),
        }
    } else {
        Ok((None, p))
    }
}

/// `items` are what `parse` gives back when it is called on `data` at each of `stops` but the
/// last, each call stopping where the next one starts.
pub open spec fn parsed_in_turn<G, F: Fn(&[u8], usize) -> Result<(G, usize), ReadingError>>(
    parse: F,
    data: &[u8],
    stops: Seq<usize>,
    items: Seq<G>,
) -> bool {
    &&& stops.len() == items.len() + 1
    &&& forall|i: int|
        0 <= i < items.len() ==> #[trigger] call_ensures(
            parse,
            (data, stops[i]),
            Ok((items[i], stops[i + 1])),
        )
}

/// Reads a list: its length as a variable-length number, then that many values, each read by
/// `parse` where the one before stopped.
pub fn get_list<G, F: Fn(&[u8], usize) -> Result<(G, usize), ReadingError>>(
    data: &[u8],
    pos: usize,
    parse: F,
) -> (r: Result<(Vec<G>, usize), ReadingError>)
    requires
        pos <= data@.len(),
        varuint_parse(data@.skip(pos as int)) matches Ok((v, _)) ==> v <= 0x7fff_ffff,
        forall|p: usize| p <= data@.len() ==> call_requires(parse, (data, p)),
        forall|p: usize, g: G, q: usize|
            #[trigger] call_ensures(parse, (data, p), Ok((g, q))) ==> q <= data@.len(),
    ensures
        match varuint_parse(data@.skip(pos as int)) {
            Ok((v, n)) => match r {
                Ok((list, q)) => list@.len() == v && exists|stops: Seq<usize>|
                    stops[0] == pos + n && stops.last() == q && #[trigger] parsed_in_turn(
                        parse,
                        data,
                        stops,
                        list@,
                    ),
                Err(e) => exists|stops: Seq<usize>, items: Seq<G>|
                    items.len() < v && stops[0] == pos + n && #[trigger] parsed_in_turn(
                        parse,
                        data,
                        stops,
                        items,
                    ) && call_ensures(parse, (data, stops.last()), Err(e)),
            },
            Err(ReadFault::Incomplete) => r matches Err(ReadingError::Incomplete(_)),
            Err(_) => r matches Err(ReadingError::TooLarge(_)),
        },
{
    let (count, start) = match get_var_int(data, pos) {
        Ok(v) => v,
        Err(e) => {
            return Err(e);
        },
    };
    let n = count.0 as usize;
    let mut list: Vec<G> = Vec::new();
    let mut cur = start;
    let ghost mut stops: Seq<usize> = seq![start];
    let mut i: usize = 0;
    while i < n
        invariant
            pos <= start <= data@.len(),
            cur <= data@.len(),
            varuint_parse(data@.skip(pos as int)) == Ok::<(u32, nat), ReadFault>(
                (n as u32, (start - pos) as nat),
            ),
            n <= 0x7fff_ffff,
            i <= n,
            list@.len() == i,
            stops[0] == start,
            stops.last() == cur,
            parsed_in_turn(parse, data, stops, list@),
            forall|p: usize| p <= data@.len() ==> call_requires(parse, (data, p)),
            forall|p: usize, g: G, q: usize|
                #[trigger] call_ensures(parse, (data, p), Ok((g, q))) ==> q <= data@.len(),
        decreases n - i,
    {
        match parse(data, cur) {
            Ok((g, q)) => {
                let ghost before = list@;
                let ghost old_stops = stops;
                let ghost item = g;
                list.push(g);
                proof {
                    stops = stops.push(q);
                    assert forall|k: int| 0 <= k < list@.len() implies #[trigger] call_ensures(
                        parse,
                        (data, stops[k]),
                        Ok((list@[k], stops[k + 1])),
                    ) by {
                        if k < before.len() {
                            assert(list@[k] == before[k]);
                            assert(stops[k] == old_stops[k]);
                            assert(stops[k + 1] == old_stops[k + 1]);
                        } else {
                            assert(list@[k] == item);
                        }
                    }
                }
                cur = q;
            },
            Err(e) => {
                proof {
                    assert(parsed_in_turn(parse, data, stops, list@));
                }
                return Err(e);
            },
        }
        i += 1;
    }
    Ok((list, cur))
}

/// Appends an optional value: a boolean, then, when there is a value, the bytes that `writer`
/// gives for it. When `writer` fails, its error is returned after the boolean was written.
pub fn write_option<G, F: FnOnce(&G) -> Result<Vec<u8>, WritingError>>(
    out: &mut Vec<u8>,
    data: &Option<G>,
    writer: F,
) -> (r: Result<(), WritingError>)
    requires
        data matches Some(g) ==> call_requires(writer, (&g,)),
    ensures
        data is None ==> r is Ok && final(out)@ == old(out)@.push(0),
        data matches Some(g) ==> match r {
            Ok(_) => exists|bytes: Vec<u8>|
                #[trigger] call_ensures(writer, (&g,), Ok(bytes)) && final(out)@ == old(out)@.push(
                    1,
                ) + bytes@,
            Err(e) => call_ensures(writer, (&g,), Err(e)) && final(out)@ == old(out)@.push(1),
        },
{
    match data {
        Some(g) => {
            write_bool(out, true);
            match writer(g) {
                Ok(bytes) => {
                    write_slice(out, bytes.as_slice());
                    Ok(())
                },
                Err(e) => Err(e),
            }
        },
        None => {
            write_bool(out, false);
            Ok(())
        },
    }
}

/// The bytes of `parts`, one after the other.
pub open spec fn joined(parts: Seq<Vec<u8>>) -> Seq<u8>
    decreases parts.len(),
{
    if parts.len() == 0 {
        Seq::empty()
    } else {
        joined(parts.drop_last()) + parts.last()@
    }
}

/// `parts` are what `writer` gives back, one for each of `items`.
pub open spec fn written_each<G, F: Fn(&G) -> Result<Vec<u8>, WritingError>>(
    writer: F,
    items: Seq<G>,
    parts: Seq<Vec<u8>>,
) -> bool {
    &&& parts.len() == items.len()
    &&& forall|i: int|
        0 <= i < items.len() ==> #[trigger] call_ensures(writer, (&items[i],), Ok(parts[i]))
}

/// Appends a list: its length as a variable-length number, then the bytes that `writer` gives
/// for each item in turn. A list longer than a variable-length number can say is refused with
/// nothing written; when `writer` fails, its error is returned after what came before it.
pub fn write_list<G, F: Fn(&G) -> Result<Vec<u8>, WritingError>>(
    out: &mut Vec<u8>,
    list: &[G],
    writer: F,
) -> (r: Result<(), WritingError>)
    requires
        forall|i: int| 0 <= i < list@.len() ==> call_requires(writer, (&list@[i],)),
    ensures
        list@.len() > i32::MAX ==> (r matches Err(WritingError::Message(_))) && final(out)@ == old(
            out,
        )@,
        list@.len() <= i32::MAX ==> match r {
            Ok(_) => exists|parts: Seq<Vec<u8>>|
                #[trigger] written_each(writer, list@, parts) && final(out)@ == old(out)@
                    + varint_bytes(list@.len() as u32) + joined(parts),
            Err(e) => exists|k: int, parts: Seq<Vec<u8>>|
                0 <= k < list@.len() && #[trigger] written_each(writer, list@.take(k), parts)
                    && call_ensures(writer, (&list@[k],), Err(e)) && final(out)@ == old(out)@
                    + varint_bytes(list@.len() as u32) + joined(parts),
        },
{
    if list.len() > 0x7fff_ffff {
        return Err(WritingError::Message(owned("list length isn't representable as a VarInt")));
    }
    let ghost start = out@;
    encode_varuint(list.len() as u32, out);
    let ghost head = out@;
    let ghost mut parts: Seq<Vec<u8>> = Seq::empty();
    let mut i: usize = 0;
    while i < list.len()
        invariant
            i <= list@.len() <= 0x7fff_ffff,
            start == old(out)@,
            head == start + varint_bytes(list@.len() as u32),
            written_each(writer, list@.take(i as int), parts),
            out@ == head + joined(parts),
            forall|j: int| 0 <= j < list@.len() ==> call_requires(writer, (&list@[j],)),
        decreases list@.len() - i,
    {
        match writer(&list[i]) {
            Ok(bytes) => {
                let ghost before = parts;
                write_slice(out, bytes.as_slice());
                proof {
                    parts = parts.push(bytes);
                    assert(parts.drop_last() =~= before);
                    assert(out@ =~= head + joined(parts));
                    assert forall|j: int| 0 <= j < i + 1 implies #[trigger] call_ensures(
                        writer,
                        (&list@.take(i + 1)[j],),
                        Ok(parts[j]),
                    ) by {
                        if j < i {
                            assert(list@.take(i + 1)[j] == list@.take(i as int)[j]);
                            assert(parts[j] == before[j]);
                        }
                    }
                }
            },
            Err(e) => {
                proof {
                    let k = i as int;
                    assert(call_ensures(writer, (&list@[k],), Err(e)));
                    assert(written_each(writer, list@.take(k), parts));
                }
                return Err(e);
            },
        }
        i += 1;
    }
    proof {
        assert(list@.take(list@.len() as int) =~= list@);
    }
    Ok(())
}

/// Two 16-bit numbers with the same big-endian bytes are equal: reading back what was written
/// gives the number.
pub proof fn lemma_be16_injective(a: u16, b: u16)
    requires
        be16(a) == be16(b),
    ensures
        a == b,
{
    assert(be16(a)[0] == be16(b)[0] && be16(a)[1] == be16(b)[1]);
    assert(a == b) by (bit_vector)
        requires
            (a >> 8u16) as u8 == (b >> 8u16) as u8,
            a as u8 == b as u8,
    ;
}

/// Two 32-bit numbers with the same big-endian bytes are equal.
pub proof fn lemma_be32_injective(a: u32, b: u32)
    requires
        be32(a) == be32(b),
    ensures
        a == b,
{
    assert(be32(a)[0] == be32(b)[0] && be32(a)[1] == be32(b)[1] && be32(a)[2] == be32(b)[2]
        && be32(a)[3] == be32(b)[3]);
    assert(a == b) by (bit_vector)
        requires
            (a >> 24u32) as u8 == (b >> 24u32) as u8,
            (a >> 16u32) as u8 == (b >> 16u32) as u8,
            (a >> 8u32) as u8 == (b >> 8u32) as u8,
            a as u8 == b as u8,
    ;
}

/// Two 64-bit numbers with the same big-endian bytes are equal.
pub proof fn lemma_be64_injective(a: u64, b: u64)
    requires
        be64(a) == be64(b),
    ensures
        a == b,
{
    assert(be64(a)[0] == be64(b)[0] && be64(a)[1] == be64(b)[1] && be64(a)[2] == be64(b)[2]
        && be64(a)[3] == be64(b)[3] && be64(a)[4] == be64(b)[4] && be64(a)[5] == be64(b)[5]
        && be64(a)[6] == be64(b)[6] && be64(a)[7] == be64(b)[7]);
    assert(a == b) by (bit_vector)
        requires
            (a >> 56u64) as u8 == (b >> 56u64) as u8,
            (a >> 48u64) as u8 == (b >> 48u64) as u8,
            (a >> 40u64) as u8 == (b >> 40u64) as u8,
            (a >> 32u64) as u8 == (b >> 32u64) as u8,
            (a >> 24u64) as u8 == (b >> 24u64) as u8,
            (a >> 16u64) as u8 == (b >> 16u64) as u8,
            (a >> 8u64) as u8 == (b >> 8u64) as u8,
            a as u8 == b as u8,
    ;
}

/// Reading the bytes of a string of at most `bound` bytes, followed by anything, gives the
/// string back.
pub proof fn lemma_string_roundtrip(s: Seq<char>, bound: nat, rest: Seq<u8>)
    requires
        encode_utf8(s).len() <= bound,
        encode_utf8(s).len() <= i32::MAX,
    ensures
        string_parse(string_bytes(s) + rest, bound) == Ok::<(Seq<char>, nat), ReadFault>(
            (s, string_bytes(s).len()),
        ),
{
    let b = encode_utf8(s);
    let n = b.len() as u32;
    let all = string_bytes(s) + rest;
    assert(all =~= varint_bytes(n) + (b + rest));
    crate::protocol::codec::lemma_varuint_roundtrip(n, b + rest);
    let k = varint_bytes(n).len();
    assert(all.subrange(k as int, k + n) =~= b);
    vstd::utf8::encode_utf8_valid_utf8(s);
    vstd::utf8::encode_utf8_decode_utf8(s);
}

/// Reading the bytes written for an identifier whose namespace holds no colon, followed by
/// anything, gives the identifier back.
pub proof fn lemma_resource_location_roundtrip(id: (Seq<char>, Seq<char>), rest: Seq<u8>)
    requires
        !has_char(id.0, ':'),
        encode_utf8(text_of(id)).len() <= ResourceLocation::MAX_SIZE,
    ensures
        resource_location_parse(string_bytes(text_of(id)) + rest) == Ok::<
            ((Seq<char>, Seq<char>), nat),
            ReadFault,
        >((id, string_bytes(text_of(id)).len())),
{
    lemma_string_roundtrip(text_of(id), ResourceLocation::MAX_SIZE as nat, rest);
    lemma_first_colon(text_of(id), id.0, id.1);
}

} // verus!
