//! Variable-length integers: a signed 32-bit value in one to five bytes,
//! seven bits to a byte, least-significant group first, the eighth bit set
//! on every byte but the last.

use crate::buffer::{contents, put_u8};
use crate::protocol::serial::{PacketError, PacketRead, PacketWrite};
use bytes::BytesMut;
use vstd::prelude::*;

verus! {

/// A signed 32-bit integer that travels in the variable-length form.
#[derive(Debug, Clone, Copy, PartialEq, Eq, Structural, Hash)]
pub struct VarInt(pub i32);

/// The value of `v` read as an unsigned 32-bit number (two's complement).
pub open spec fn unsigned(v: i32) -> nat {
    if v >= 0 {
        v as nat
    } else {
        (v + 0x1_0000_0000) as nat
    }
}

/// The signed 32-bit number whose two's complement form is `x % 2^32`.
pub open spec fn signed(x: nat) -> i32 {
    let low = x % 0x1_0000_0000;
    if low < 0x8000_0000 {
        low as i32
    } else {
        (low - 0x1_0000_0000) as i32
    }
}

/// The groups of seven bits of `x`, least significant first, each but the
/// last with its eighth bit set.
pub open spec fn encode_groups(x: nat) -> Seq<u8>
    decreases x,
{
    if x < 128 {
        seq![x as u8]
    } else {
        seq![(x % 128 + 128) as u8] + encode_groups(x / 128)
    }
}

/// Reads groups from the head of `bytes`, of which `depth` came before.
/// Gives the number the groups spell and how many bytes they took. A fifth
/// byte that asks for a sixth is an error; so is running out of bytes.
pub open spec fn decode_groups(bytes: Seq<u8>, depth: nat) -> Result<(nat, nat), PacketError>
    decreases 5 - depth,
{
    if depth >= 5 {
        Err(PacketError::VarIntTooBig)
    } else if bytes.len() == 0 {
        Err(PacketError::Incomplete)
    } else if bytes[0] < 128 {
        Ok((bytes[0] as nat, 1))
    } else {
        match decode_groups(bytes.skip(1), depth + 1) {
            Ok((rest, used)) => Ok((((bytes[0] - 128) + 128 * rest) as nat, used + 1)),
            Err(e) => Err(e),
        }
    }
}

/// What decoding a variable-length integer from the head of `bytes` gives:
/// the value and the number of bytes it took, or the error.
pub open spec fn parse_var_int(bytes: Seq<u8>) -> Result<(i32, nat), PacketError> {
    match decode_groups(bytes, 0) {
        Ok((n, used)) => Ok((signed(n), used)),
        Err(e) => Err(e),
    }
}

/// The largest number that groups starting at `depth` can spell, plus one.
pub open spec fn group_bound(depth: nat) -> nat {
    if depth == 0 {
        0x8_0000_0000
    } else if depth == 1 {
        0x1000_0000
    } else if depth == 2 {
        0x20_0000
    } else if depth == 3 {
        0x4000
    } else {
        0x80
    }
}

impl VarInt {
    /// Decodes a value from the head of `data` and says how many bytes it
    /// took. Nothing is consumed: `data` is only looked at.
    pub fn peek(data: &[u8]) -> (r: Result<(VarInt, usize), PacketError>)
        ensures
            match parse_var_int(data@) {
                Ok((v, used)) => r == Ok::<(VarInt, usize), PacketError>((VarInt(v), used as usize))
                    && 1 <= used <= 5 && used <= data@.len(),
                Err(e) => r == Err::<(VarInt, usize), PacketError>(e),
            },
    {
        proof {
            assert(data@.skip(0) =~= data@);
        }
        VarInt::decode(data, 0)
    }

    /// The number of bytes this value takes on the wire, one to five.
    pub fn wire_len(&self) -> (n: usize)
        ensures
            n == self.wire().len(),
            1 <= n <= 5,
    {
        let x: u32 = to_unsigned(self.0);
        proof {
            lemma_encode_groups_len(x as nat);
        }
        if x < 0x80 {
            1
        } else if x < 0x4000 {
            2
        } else if x < 0x20_0000 {
            3
        } else if x < 0x1000_0000 {
            4
        } else {
            5
        }
    }
}

impl DeepView for VarInt {
    type V = VarInt;

    open spec fn deep_view(&self) -> VarInt {
        *self
    }
}

impl PacketWrite for VarInt {
    open spec fn wire(&self) -> Seq<u8> {
        encode_groups(unsigned(self.0))
    }

    open spec fn wire_error(&self) -> Option<PacketError> {
        None
    }

    fn check(&self) -> (r: Result<(), PacketError>) {
        Ok(())
    }

    fn size(&self) -> (n: usize) {
        self.wire_len()
    }

    fn put(&self, buffer: &mut BytesMut) {
        let mut x: u32 = to_unsigned(self.0);
        let ghost start = contents(*buffer);
        let ghost whole = self.wire();
        while x >= 128
            invariant
                start + whole == contents(*buffer) + encode_groups(x as nat),
                contents(*buffer).len() + encode_groups(x as nat).len() <= isize::MAX,
            decreases x,
        {
            let group: u8 = (x % 128 + 128) as u8;
            proof {
                let ghost before = contents(*buffer);
                assert(encode_groups(x as nat) =~= seq![group] + encode_groups((x / 128) as nat));
                assert(before.push(group) + encode_groups((x / 128) as nat) =~= before
                    + encode_groups(x as nat));
            }
            put_u8(buffer, group);
            x = x / 128;
        }
        proof {
            let ghost before = contents(*buffer);
            assert(encode_groups(x as nat) =~= seq![x as u8]);
            assert(before.push(x as u8) =~= before + encode_groups(x as nat));
        }
        put_u8(buffer, x as u8);
        proof {
            assert(contents(*buffer) == start + whole);
        }
    }
}

impl PacketRead for VarInt {
    open spec fn parse(bytes: Seq<u8>) -> Result<(VarInt, nat), PacketError> {
        match parse_var_int(bytes) {
            Ok((v, used)) => Ok((VarInt(v), used)),
            Err(e) => Err(e),
        }
    }

    fn decode(data: &[u8], start: usize) -> (r: Result<(VarInt, usize), PacketError>)
        ensures
            r matches Ok((_, end)) ==> start < end <= start + 5,
    {
        match peek_groups(data, start, 0) {
            Ok((n, used)) => {
                let low: u64 = n % 0x1_0000_0000;
                let value: i32 = if low < 0x8000_0000 {
                    low as i32
                } else {
                    (low as i64 - 0x1_0000_0000) as i32
                };
                Ok((VarInt(value), start + used))
            },
            Err(e) => Err(e),
        }
    }
}

/// The two's complement form of `v`.
fn to_unsigned(v: i32) -> (x: u32)
    ensures
        x == unsigned(v),
{
    if v >= 0 {
        v as u32
    } else {
        (v as i64 + 0x1_0000_0000) as u32
    }
}

fn peek_groups(data: &[u8], start: usize, depth: u8) -> (r: Result<(u64, usize), PacketError>)
    requires
        start <= data@.len(),
    ensures
        match decode_groups(data@.skip(start as int), depth as nat) {
            Ok((n, used)) => r == Ok::<(u64, usize), PacketError>((n as u64, used as usize)) && n
                < group_bound(depth as nat) && 1 <= used <= 5 - depth && start + used
                <= data@.len() <= usize::MAX,
            Err(e) => r == Err::<(u64, usize), PacketError>(e),
        },
    decreases 5 - depth,
{
    let ghost bytes = data@.skip(start as int);
    if depth >= 5 {
        return Err(PacketError::VarIntTooBig);
    }
    if start >= data.len() {
        return Err(PacketError::Incomplete);
    }
    let byte = data[start];
    assert(bytes[0] == byte);
    if byte < 128 {
        return Ok((byte as u64, 1));
    }
    assert(bytes.skip(1) =~= data@.skip(start + 1));
    match peek_groups(data, start + 1, depth + 1) {
        Ok((rest, used)) => Ok(((byte - 128) as u64 + 128 * rest, used + 1)),
        Err(e) => Err(e),
    }
}

/// How long the encoding of `x` is, by the size of `x`.
pub proof fn lemma_encode_groups_len(x: nat)
    ensures
        x < 0x80 ==> encode_groups(x).len() == 1,
        0x80 <= x < 0x4000 ==> encode_groups(x).len() == 2,
        0x4000 <= x < 0x20_0000 ==> encode_groups(x).len() == 3,
        0x20_0000 <= x < 0x1000_0000 ==> encode_groups(x).len() == 4,
        0x1000_0000 <= x < 0x8_0000_0000 ==> encode_groups(x).len() == 5,
{
    reveal_with_fuel(encode_groups, 6);
}

/// Decoding what was encoded gives the number back and takes exactly the
/// encoding, whatever follows it.
pub proof fn lemma_groups_round_trip(x: nat, rest: Seq<u8>, depth: nat)
    requires
        depth < 5,
        x < group_bound(depth),
    ensures
        decode_groups(encode_groups(x) + rest, depth) == Ok::<(nat, nat), PacketError>(
            (x, encode_groups(x).len()),
        ),
    decreases x,
{
    let bytes = encode_groups(x) + rest;
    if x < 128 {
        assert(bytes[0] == x as u8);
    } else {
        let tail = encode_groups(x / 128);
        assert(bytes[0] == (x % 128 + 128) as u8);
        assert(bytes.skip(1) =~= tail + rest);
        lemma_groups_round_trip(x / 128, rest, depth + 1);
    }
}

/// For every 32-bit value, decoding its encoding gives the value back and
/// consumes the encoding and nothing more.
pub proof fn lemma_var_int_round_trip(v: i32, rest: Seq<u8>)
    ensures
        parse_var_int(VarInt(v).wire() + rest) == Ok::<(i32, nat), PacketError>(
            (v, VarInt(v).wire().len()),
        ),
        1 <= VarInt(v).wire().len() <= 5,
{
    lemma_groups_round_trip(unsigned(v), rest, 0);
    lemma_encode_groups_len(unsigned(v));
}

} // verus!
