use vstd::prelude::*;

verus! {

/// The bytes of the variable-length encoding of `v`: seven bits per byte, lowest group first,
/// the high bit set on every byte but the last.
pub open spec fn varint_bytes(v: u32) -> Seq<u8>
    decreases v,
{
    if v < 128 {
        seq![v as u8]
    } else {
        seq![(v % 128 + 128) as u8] + varint_bytes(v / 128)
    }
}

/// The value of a sequence of seven-bit groups, lowest group first.
pub open spec fn groups_value(s: Seq<u8>) -> nat
    decreases s.len(),
{
    if s.len() == 0 {
        0
    } else {
        (s[0] % 128) as nat + 128 * groups_value(s.drop_first())
    }
}

/// 128 to the power `i`.
pub open spec fn weight(i: nat) -> nat
    decreases i,
{
    if i == 0 {
        1
    } else {
        128 * weight((i - 1) as nat)
    }
}

/// Why reading a value from bytes failed.
#[derive(Debug, Clone, Copy, PartialEq, Eq)]
pub enum ReadFault {
    /// The bytes ended before the value did.
    Incomplete,
    /// The value is longer than allowed.
    TooLarge,
    /// The bytes do not form a valid value.
    Invalid,
}

/// A terminating byte of a variable-length number: its high bit is clear.
pub open spec fn is_last_group(b: u8) -> bool {
    b < 128
}

/// The first `n` bytes of `s` hold no terminating byte.
pub open spec fn no_last_group_before(s: Seq<u8>, n: int) -> bool {
    forall|k: int| 0 <= k < n ==> !is_last_group(#[trigger] s[k])
}

/// Reads a variable-length number of at most five bytes from the start of `s`: its value
/// (the groups' value cut to 32 bits) and the number of bytes it takes.
pub open spec fn varuint_parse(s: Seq<u8>) -> Result<(u32, nat), ReadFault> {
    if exists|n: int| 0 <= n < 5 && n < s.len() && is_last_group(s[n]) && no_last_group_before(s, n) {
        let n = choose|n: int|
            0 <= n < 5 && n < s.len() && is_last_group(s[n]) && no_last_group_before(s, n);
        Ok(((groups_value(s.take(n + 1)) % 0x1_0000_0000) as u32, (n + 1) as nat))
    } else if s.len() < 5 {
        Err(ReadFault::Incomplete)
    } else {
        Err(ReadFault::TooLarge)
    }
}

/// Reads a variable-length signed 32-bit number from the start of `s`.
pub open spec fn varint_parse(s: Seq<u8>) -> Result<(i32, nat), ReadFault> {
    match varuint_parse(s) {
        Ok((v, n)) => Ok((v as i32, n)),
        Err(e) => Err(e),
    }
}

/// A signed 32-bit number that the protocol writes in the variable-length encoding.
#[derive(Debug, Clone, Copy, PartialEq, Eq, Hash)]
pub struct VarInt(pub i32);

impl VarInt {
    /// The most bytes one encoded number takes.
    pub const MAX_SIZE: usize = 5;

    /// Appends the encoding of this number to `out`.
    pub fn encode(&self, out: &mut Vec<u8>)
        ensures
            final(out)@ == old(out)@ + varint_bytes(self.0 as u32),
    {
        encode_varuint(self.0 as u32, out)
    }

    /// Reads a number from `data` at `pos`; gives the number and the position after it.
    pub fn decode(data: &[u8], pos: usize) -> (r: Result<(VarInt, usize), ReadingError>)
        requires
            pos <= data@.len(),
        ensures
            match varint_parse(data@.skip(pos as int)) {
                Ok((v, n)) => r matches Ok((x, p)) && x.0 == v && p == pos + n,
                Err(ReadFault::Incomplete) => r matches Err(ReadingError::Incomplete(_)),
                Err(_) => r matches Err(ReadingError::TooLarge(_)),
            },
    {
        match decode_varuint(data, pos) {
            Ok((v, p)) => Ok((VarInt(v as i32), p)),
            Err(e) => Err(e),
        }
    }
}

/// Errors that reading a packet gives.
#[derive(Debug)]
pub enum ReadingError {
    /// The bytes ended before anything could be read.
    CleanEOF(String),
    /// The bytes ended in the middle of a value.
    Incomplete(String),
    /// A value is longer than allowed.
    TooLarge(String),
    /// A value is malformed.
    Message(String),
}

/// Errors that writing a packet gives.
#[derive(Debug)]
pub enum WritingError {
    /// The destination refused the bytes.
    IoError(std::io::Error),
    /// A value could not be serialized.
    Serde(String),
    /// A value cannot be written in the protocol's format.
    Message(String),
}

#[verifier::external_type_specification]
#[verifier::external_body]
pub struct ExIoError(std::io::Error);

/// The message of an input that ended early.
fn incomplete_message() -> (r: String)
    ensures
        r@ == "failed to fill whole buffer"@,
{
    crate::names::owned("failed to fill whole buffer")
}

/// Appends the variable-length encoding of `v` to `out`.
pub fn encode_varuint(v: u32, out: &mut Vec<u8>)
    ensures
        final(out)@ == old(out)@ + varint_bytes(v),
    decreases v,
{
    if v < 128 {
        out.push(v as u8);
        assert(out@ =~= old(out)@ + varint_bytes(v));
    } else {
        out.push((v % 128 + 128) as u8);
        let ghost mid = out@;
        encode_varuint(v / 128, out);
        assert(out@ =~= old(out)@ + varint_bytes(v));
    }
}

/// Extending a sequence of groups by one adds that group at the next weight.
proof fn lemma_groups_value_push(s: Seq<u8>, b: u8)
    ensures
        groups_value(s.push(b)) == groups_value(s) + (b % 128) as nat * weight(s.len()),
    decreases s.len(),
{
    if s.len() == 0 {
        assert(s.push(b).drop_first() =~= Seq::<u8>::empty());
        assert(s.push(b)[0] == b);
        assert(groups_value(Seq::<u8>::empty()) == 0);
        assert(weight(0) == 1);
    } else {
        assert(s.push(b).drop_first() =~= s.drop_first().push(b));
        assert(s.push(b)[0] == s[0]);
        lemma_groups_value_push(s.drop_first(), b);
        assert(weight(s.len()) == 128 * weight((s.len() - 1) as nat));
        assert(128 * ((b % 128) as nat * weight((s.len() - 1) as nat)) == (b % 128) as nat * (128
            * weight((s.len() - 1) as nat))) by (nonlinear_arith);
    }
}

/// Reads an unsigned variable-length number from `data` at `pos`.
pub fn decode_varuint(data: &[u8], pos: usize) -> (r: Result<(u32, usize), ReadingError>)
    requires
        pos <= data@.len(),
    ensures
        match varuint_parse(data@.skip(pos as int)) {
            Ok((v, n)) => r matches Ok((x, p)) && x == v && p == pos + n,
            Err(ReadFault::Incomplete) => r matches Err(ReadingError::Incomplete(_)),
            Err(_) => r matches Err(ReadingError::TooLarge(_)),
        },
{
    let ghost s = data@.skip(pos as int);
    let mut val: u64 = 0;
    let mut mul: u64 = 1;
    let mut i: usize = 0;
    while i < 5
        invariant
            0 <= i <= 5,
            pos <= data@.len(),
            s == data@.skip(pos as int),
            i <= s.len(),
            no_last_group_before(s, i as int),
            val == groups_value(s.take(i as int)),
            mul == weight(i as nat),
            val < weight(i as nat),
        decreases 5 - i,
    {
        if i >= data.len() - pos {
            proof {
                assert(s.len() == i);
                if exists|n: int|
                    0 <= n < 5 && n < s.len() && is_last_group(s[n]) && no_last_group_before(s, n) {
                    let n = choose|n: int|
                        0 <= n < 5 && n < s.len() && is_last_group(s[n]) && no_last_group_before(
                            s,
                            n,
                        );
                    assert(!is_last_group(s[n]));
                }
            }
            return Err(ReadingError::Incomplete(incomplete_message()));
        }
        let b = data[pos + i];
        assert(b == s[i as int]);
        proof {
            lemma_groups_value_push(s.take(i as int), b);
            assert(s.take(i as int + 1) =~= s.take(i as int).push(b));
            assert(weight(i as nat + 1) == 128 * weight(i as nat));
            assert(weight(4) == 268435456) by {
                reveal_with_fuel(weight, 5);
            }
            assert((b % 128) as nat * weight(i as nat) <= 127 * weight(i as nat)) by (nonlinear_arith);
        }
        val = val + ((b % 128) as u64) * mul;
        if b < 128 {
            proof {
                let n = i as int;
                assert(is_last_group(s[n]) && no_last_group_before(s, n));
                let m = choose|m: int|
                    0 <= m < 5 && m < s.len() && is_last_group(s[m]) && no_last_group_before(s, m);
                if m < n {
                    assert(!is_last_group(s[m]));
                }
                if m > n {
                    assert(!is_last_group(s[n]));
                }
                assert(m == n);
            }
            return Ok(((val % 0x1_0000_0000) as u32, pos + i + 1));
        }
        mul = mul * 128;
        i += 1;
    }
    proof {
        if exists|n: int| 0 <= n < 5 && n < s.len() && is_last_group(s[n]) && no_last_group_before(s, n) {
            let n = choose|n: int|
                0 <= n < 5 && n < s.len() && is_last_group(s[n]) && no_last_group_before(s, n);
            assert(!is_last_group(s[n]));
        }
    }
    Err(ReadingError::TooLarge(crate::names::owned("VarInt")))
}

/// Every byte of an encoding but the last has its high bit set; the last has it clear.
proof fn lemma_varint_shape(v: u32)
    ensures
        1 <= varint_bytes(v).len() <= 5,
        is_last_group(varint_bytes(v).last()),
        no_last_group_before(varint_bytes(v), varint_bytes(v).len() - 1),
        groups_value(varint_bytes(v)) == v,
        v < 0x1000_0000 ==> varint_bytes(v).len() <= 4,
        v < 0x20_0000 ==> varint_bytes(v).len() <= 3,
        v < 0x4000 ==> varint_bytes(v).len() <= 2,
        v < 128 ==> varint_bytes(v).len() == 1,
    decreases v,
{
    let b = varint_bytes(v);
    if v < 128 {
        assert(b.drop_first() =~= Seq::<u8>::empty());
        assert(groups_value(Seq::<u8>::empty()) == 0);
        assert(b[0] == v as u8);
        assert((v as u8) % 128 == v);
    } else {
        lemma_varint_shape(v / 128);
        let rest = varint_bytes(v / 128);
        assert(b.drop_first() =~= rest);
        assert(b[0] == (v % 128 + 128) as u8);
        assert(((v % 128 + 128) as u8) % 128 == v % 128);
        assert(v == v % 128 + 128 * (v / 128));
        assert forall|k: int| 0 <= k < b.len() - 1 implies !is_last_group(#[trigger] b[k]) by {
            if k > 0 {
                assert(b[k] == rest[k - 1]);
            }
        }
        assert(b.last() == rest.last());
    }
}

/// Reading the encoding of a number, followed by anything, gives the number back.
pub proof fn lemma_varuint_roundtrip(v: u32, rest: Seq<u8>)
    ensures
        varuint_parse(varint_bytes(v) + rest) == Ok::<(u32, nat), ReadFault>(
            (v, varint_bytes(v).len()),
        ),
{
    lemma_varint_shape(v);
    let b = varint_bytes(v);
    let s = b + rest;
    let n = b.len() - 1;
    assert(s[n] == b[n]);
    assert forall|k: int| 0 <= k < n implies !is_last_group(#[trigger] s[k]) by {
        assert(s[k] == b[k]);
    }
    assert(0 <= n < 5 && n < s.len() && is_last_group(s[n]) && no_last_group_before(s, n));
    let m = choose|m: int| 0 <= m < 5 && m < s.len() && is_last_group(s[m]) && no_last_group_before(s, m);
    if m < n {
        assert(s[m] == b[m]);
        assert(!is_last_group(s[m]));
    }
    if m > n {
        assert(!is_last_group(s[n]));
    }
    assert(s.take(n + 1) =~= b);
}

/// Reading the encoding of a signed number, followed by anything, gives the number back.
pub proof fn lemma_varint_roundtrip(v: i32, rest: Seq<u8>)
    ensures
        varint_parse(varint_bytes(v as u32) + rest) == Ok::<(i32, nat), ReadFault>(
            (v, varint_bytes(v as u32).len()),
        ),
{
    lemma_varuint_roundtrip(v as u32, rest);
    assert(((v as u32) as i32) == v) by (bit_vector);
}

/// The encoding of a number below 2^14 takes at most two bytes, and that of a number below
/// 128 takes one.
pub proof fn lemma_varint_short(v: u32)
    ensures
        v < 0x4000 ==> varint_bytes(v).len() <= 2,
        v < 128 ==> varint_bytes(v) == seq![v as u8],
{
    lemma_varint_shape(v);
}

} // verus!
