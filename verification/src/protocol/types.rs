//! Fixed-width integers, booleans, strings, optional values and lists on
//! the wire.
//!
//! Integers travel big-endian, signed ones in two's complement. A boolean
//! is one byte. A string is its UTF-8 bytes behind their count as a
//! variable-length integer. An optional value is a presence byte and, if
//! present, the value. A list is its count and then its items.

use crate::buffer::{contents, put_slice, put_u8};
use crate::protocol::serial::{PacketError, PacketRead, PacketWrite};
use crate::protocol::var_int::{lemma_var_int_round_trip, VarInt};
use crate::text::str_from_utf8;
use bytes::BytesMut;
use vstd::prelude::*;
use vstd::slice::slice_subrange;
use vstd::string::StringSliceAdditionalSpecFns;
use vstd::utf8::{decode_utf8, encode_utf8, valid_utf8};

verus! {

/// The most bytes a string may take on the wire, its count not included.
pub const MAX_STRING_BYTES: usize = 32767;

/// `256` to the power `n`: how many values fit in `n` bytes.
pub open spec fn radix(n: nat) -> nat
    decreases n,
{
    if n == 0 {
        1
    } else {
        256 * radix((n - 1) as nat)
    }
}

/// The `n` bytes of `x`, most significant first.
pub open spec fn be_bytes(x: nat, n: nat) -> Seq<u8>
    decreases n,
{
    if n == 0 {
        Seq::empty()
    } else {
        be_bytes(x / 256, (n - 1) as nat).push((x % 256) as u8)
    }
}

/// The number that `bytes` spell, most significant first.
pub open spec fn be_value(bytes: Seq<u8>) -> nat
    decreases bytes.len(),
{
    if bytes.len() == 0 {
        0
    } else {
        be_value(bytes.drop_last()) * 256 + bytes.last() as nat
    }
}

/// The two's complement form of `v` in `n` bytes.
pub open spec fn twos(v: int, n: nat) -> nat {
    if v >= 0 {
        v as nat
    } else {
        (v + radix(n)) as nat
    }
}

/// The signed number whose two's complement form in `n` bytes is `x`.
pub open spec fn untwos(x: nat, n: nat) -> int {
    if 2 * x < radix(n) {
        x as int
    } else {
        x - radix(n)
    }
}

/// What reading `n` bytes as one big-endian number from the head of
/// `bytes` gives.
pub open spec fn parse_fixed(bytes: Seq<u8>, n: nat) -> Result<(nat, nat), PacketError> {
    if bytes.len() < n {
        Err(PacketError::Incomplete)
    } else {
        Ok((be_value(bytes.take(n as int)), n))
    }
}

/// How many values fit in one, two, four, eight and sixteen bytes.
pub proof fn lemma_radix_values()
    ensures
        radix(0) == 1,
        radix(1) == 0x100,
        radix(2) == 0x1_0000,
        radix(4) == 0x1_0000_0000,
        radix(8) == 0x1_0000_0000_0000_0000,
        radix(16) == 0x1_0000_0000_0000_0000_0000_0000_0000_0000,
{
    reveal_with_fuel(radix, 17);
}

/// More bytes hold no fewer values.
pub proof fn lemma_radix_monotone(a: nat, b: nat)
    requires
        a <= b,
    ensures
        0 < radix(a) <= radix(b),
    decreases b,
{
    if b == 0 {
    } else if a == b {
        lemma_radix_monotone(0, (b - 1) as nat);
    } else {
        lemma_radix_monotone(a, (b - 1) as nat);
    }
}

/// A number spelled in `n` bytes takes `n` bytes.
pub proof fn lemma_be_bytes_len(x: nat, n: nat)
    ensures
        be_bytes(x, n).len() == n,
    decreases n,
{
    if n > 0 {
        lemma_be_bytes_len(x / 256, (n - 1) as nat);
    }
}

/// Spelling a number in `n` bytes and reading the bytes back gives the
/// number, when it fits in `n` bytes.
pub proof fn lemma_be_round_trip(x: nat, n: nat)
    requires
        x < radix(n),
    ensures
        be_value(be_bytes(x, n)) == x,
    decreases n,
{
    if n > 0 {
        let bytes = be_bytes(x, n);
        lemma_be_round_trip(x / 256, (n - 1) as nat);
        assert(bytes.drop_last() =~= be_bytes(x / 256, (n - 1) as nat));
    }
}

/// Reading a number and spelling it again gives the bytes it was read from.
pub proof fn lemma_be_bytes_of_value(bytes: Seq<u8>)
    ensures
        be_bytes(be_value(bytes), bytes.len()) == bytes,
    decreases bytes.len(),
{
    if bytes.len() > 0 {
        lemma_be_bytes_of_value(bytes.drop_last());
        assert(be_bytes(be_value(bytes), bytes.len()) =~= bytes);
    }
}

/// Reading a fixed-width number from its own bytes, whatever follows them,
/// gives the number back and takes exactly its bytes.
pub proof fn lemma_fixed_round_trip(x: nat, n: nat, rest: Seq<u8>)
    requires
        x < radix(n),
    ensures
        parse_fixed(be_bytes(x, n) + rest, n) == Ok::<(nat, nat), PacketError>((x, n)),
{
    lemma_be_bytes_len(x, n);
    lemma_be_round_trip(x, n);
    assert((be_bytes(x, n) + rest).take(n as int) =~= be_bytes(x, n));
}

fn put_be(buffer: &mut BytesMut, x: u128, n: usize)
    requires
        n <= 16,
        contents(*old(buffer)).len() + n <= isize::MAX,
    ensures
        contents(*final(buffer)) == contents(*old(buffer)) + be_bytes(x as nat, n as nat),
    decreases n,
{
    if n > 0 {
        put_be(buffer, x / 256, n - 1);
        proof {
            lemma_be_bytes_len((x / 256) as nat, (n - 1) as nat);
        }
        put_u8(buffer, (x % 256) as u8);
        assert(contents(*buffer) =~= contents(*old(buffer)) + be_bytes(x as nat, n as nat));
    } else {
        assert(contents(*buffer) =~= contents(*old(buffer)) + be_bytes(x as nat, n as nat));
    }
}

fn decode_fixed(data: &[u8], start: usize, n: usize) -> (r: Result<(u128, usize), PacketError>)
    requires
        n <= 16,
        start <= data@.len(),
    ensures
        match parse_fixed(data@.skip(start as int), n as nat) {
            Ok((x, used)) => r == Ok::<(u128, usize), PacketError>((x as u128, (start + n) as usize))
                && x < radix(n as nat) && start + n <= data@.len() <= usize::MAX,
            Err(e) => r == Err::<(u128, usize), PacketError>(e),
        },
{
    if data.len() - start < n {
        return Err(PacketError::Incomplete);
    }
    let ghost bytes = data@.skip(start as int).take(n as int);
    let mut acc: u128 = 0;
    let mut i: usize = 0;
    while i < n
        invariant
            i <= n <= 16,
            start + n <= data@.len() <= usize::MAX,
            bytes == data@.skip(start as int).take(n as int),
            acc == be_value(bytes.take(i as int)),
            acc < radix(i as nat),
        decreases n - i,
    {
        proof {
            assert(bytes.take(i + 1).drop_last() =~= bytes.take(i as int));
            assert(bytes.take(i + 1).last() == data@[start + i]);
            lemma_radix_monotone((i + 1) as nat, 16);
            lemma_radix_values();
        }
        acc = acc * 256 + data[start + i] as u128;
        i += 1;
    }
    assert(bytes.take(n as int) =~= bytes);
    Ok((acc, start + n))
}

/// The presence byte and truth byte: what `b` is on the wire.
pub open spec fn bool_byte(b: bool) -> u8 {
    if b {
        1
    } else {
        0
    }
}

/// What decoding a string from the head of `bytes` gives.
pub open spec fn parse_string(bytes: Seq<u8>) -> Result<(Seq<char>, nat), PacketError> {
    match VarInt::parse(bytes) {
        Err(e) => Err(e),
        Ok((count, used)) => {
            if count.0 > MAX_STRING_BYTES {
                Err(PacketError::StringTooLong)
            } else if count.0 < 0 || bytes.len() - used < count.0 {
                Err(PacketError::Incomplete)
            } else {
                let body = bytes.subrange(used as int, used + count.0);
                if valid_utf8(body) {
                    Ok((decode_utf8(body), (used + count.0) as nat))
                } else {
                    Err(PacketError::Utf8)
                }
            }
        },
    }
}

impl PacketWrite for u8 {
    open spec fn wire(&self) -> Seq<u8> {
        be_bytes(*self as nat, 1)
    }

    open spec fn wire_error(&self) -> Option<PacketError> {
        None
    }

    fn check(&self) -> (r: Result<(), PacketError>) {
        Ok(())
    }

    fn size(&self) -> (n: usize) {
        proof {
            lemma_be_bytes_len(*self as nat, 1);
            assert(self.wire().len() == 1);
        }
        1
    }

    fn put(&self, buffer: &mut BytesMut) {
        proof {
            lemma_be_bytes_len(*self as nat, 1);
            assert(self.wire() == be_bytes(*self as nat, 1));
            assert(self.wire().len() == 1);
        }
        put_be(buffer, *self as u128, 1)
    }
}

impl PacketRead for u8 {
    open spec fn parse(bytes: Seq<u8>) -> Result<(u8, nat), PacketError> {
        match parse_fixed(bytes, 1) {
            Ok((x, used)) => Ok((x as u8, used)),
            Err(e) => Err(e),
        }
    }

    fn decode(data: &[u8], start: usize) -> (r: Result<(u8, usize), PacketError>) {
        proof {
            lemma_radix_values();
        }
        match decode_fixed(data, start, 1) {
            Ok((x, end)) => Ok((x as u8, end)),
            Err(e) => Err(e),
        }
    }
}

impl PacketWrite for u16 {
    open spec fn wire(&self) -> Seq<u8> {
        be_bytes(*self as nat, 2)
    }

    open spec fn wire_error(&self) -> Option<PacketError> {
        None
    }

    fn check(&self) -> (r: Result<(), PacketError>) {
        Ok(())
    }

    fn size(&self) -> (n: usize) {
        proof {
            lemma_be_bytes_len(*self as nat, 2);
            assert(self.wire().len() == 2);
        }
        2
    }

    fn put(&self, buffer: &mut BytesMut) {
        proof {
            lemma_be_bytes_len(*self as nat, 2);
            assert(self.wire() == be_bytes(*self as nat, 2));
            assert(self.wire().len() == 2);
        }
        put_be(buffer, *self as u128, 2)
    }
}

impl PacketRead for u16 {
    open spec fn parse(bytes: Seq<u8>) -> Result<(u16, nat), PacketError> {
        match parse_fixed(bytes, 2) {
            Ok((x, used)) => Ok((x as u16, used)),
            Err(e) => Err(e),
        }
    }

    fn decode(data: &[u8], start: usize) -> (r: Result<(u16, usize), PacketError>) {
        proof {
            lemma_radix_values();
        }
        match decode_fixed(data, start, 2) {
            Ok((x, end)) => Ok((x as u16, end)),
            Err(e) => Err(e),
        }
    }
}

impl PacketWrite for u32 {
    open spec fn wire(&self) -> Seq<u8> {
        be_bytes(*self as nat, 4)
    }

    open spec fn wire_error(&self) -> Option<PacketError> {
        None
    }

    fn check(&self) -> (r: Result<(), PacketError>) {
        Ok(())
    }

    fn size(&self) -> (n: usize) {
        proof {
            lemma_be_bytes_len(*self as nat, 4);
            assert(self.wire().len() == 4);
        }
        4
    }

    fn put(&self, buffer: &mut BytesMut) {
        proof {
            lemma_be_bytes_len(*self as nat, 4);
            assert(self.wire() == be_bytes(*self as nat, 4));
            assert(self.wire().len() == 4);
        }
        put_be(buffer, *self as u128, 4)
    }
}

impl PacketRead for u32 {
    open spec fn parse(bytes: Seq<u8>) -> Result<(u32, nat), PacketError> {
        match parse_fixed(bytes, 4) {
            Ok((x, used)) => Ok((x as u32, used)),
            Err(e) => Err(e),
        }
    }

    fn decode(data: &[u8], start: usize) -> (r: Result<(u32, usize), PacketError>) {
        proof {
            lemma_radix_values();
        }
        match decode_fixed(data, start, 4) {
            Ok((x, end)) => Ok((x as u32, end)),
            Err(e) => Err(e),
        }
    }
}

impl PacketWrite for u64 {
    open spec fn wire(&self) -> Seq<u8> {
        be_bytes(*self as nat, 8)
    }

    open spec fn wire_error(&self) -> Option<PacketError> {
        None
    }

    fn check(&self) -> (r: Result<(), PacketError>) {
        Ok(())
    }

    fn size(&self) -> (n: usize) {
        proof {
            lemma_be_bytes_len(*self as nat, 8);
            assert(self.wire().len() == 8);
        }
        8
    }

    fn put(&self, buffer: &mut BytesMut) {
        proof {
            lemma_be_bytes_len(*self as nat, 8);
            assert(self.wire() == be_bytes(*self as nat, 8));
            assert(self.wire().len() == 8);
        }
        put_be(buffer, *self as u128, 8)
    }
}

impl PacketRead for u64 {
    open spec fn parse(bytes: Seq<u8>) -> Result<(u64, nat), PacketError> {
        match parse_fixed(bytes, 8) {
            Ok((x, used)) => Ok((x as u64, used)),
            Err(e) => Err(e),
        }
    }

    fn decode(data: &[u8], start: usize) -> (r: Result<(u64, usize), PacketError>) {
        proof {
            lemma_radix_values();
        }
        match decode_fixed(data, start, 8) {
            Ok((x, end)) => Ok((x as u64, end)),
            Err(e) => Err(e),
        }
    }
}

impl PacketWrite for u128 {
    open spec fn wire(&self) -> Seq<u8> {
        be_bytes(*self as nat, 16)
    }

    open spec fn wire_error(&self) -> Option<PacketError> {
        None
    }

    fn check(&self) -> (r: Result<(), PacketError>) {
        Ok(())
    }

    fn size(&self) -> (n: usize) {
        proof {
            lemma_be_bytes_len(*self as nat, 16);
            assert(self.wire().len() == 16);
        }
        16
    }

    fn put(&self, buffer: &mut BytesMut) {
        proof {
            lemma_be_bytes_len(*self as nat, 16);
            assert(self.wire() == be_bytes(*self as nat, 16));
            assert(self.wire().len() == 16);
        }
        put_be(buffer, *self, 16)
    }
}

impl PacketRead for u128 {
    open spec fn parse(bytes: Seq<u8>) -> Result<(u128, nat), PacketError> {
        match parse_fixed(bytes, 16) {
            Ok((x, used)) => Ok((x as u128, used)),
            Err(e) => Err(e),
        }
    }

    fn decode(data: &[u8], start: usize) -> (r: Result<(u128, usize), PacketError>) {
        proof {
            lemma_radix_values();
        }
        match decode_fixed(data, start, 16) {
            Ok((x, end)) => Ok((x, end)),
            Err(e) => Err(e),
        }
    }
}

impl PacketWrite for i8 {
    open spec fn wire(&self) -> Seq<u8> {
        be_bytes(twos(*self as int, 1), 1)
    }

    open spec fn wire_error(&self) -> Option<PacketError> {
        None
    }

    fn check(&self) -> (r: Result<(), PacketError>) {
        Ok(())
    }

    fn size(&self) -> (n: usize) {
        proof {
            lemma_be_bytes_len(twos(*self as int, 1), 1);
            assert(self.wire().len() == 1);
        }
        1
    }

    fn put(&self, buffer: &mut BytesMut) {
        proof {
            lemma_radix_values();
            lemma_be_bytes_len(twos(*self as int, 1), 1);
            assert(self.wire() == be_bytes(twos(*self as int, 1), 1));
            assert(self.wire().len() == 1);
        }
        let x: u128 = if *self >= 0 {
            *self as u128
        } else {
            (*self as i128 + 0x100) as u128
        };
        put_be(buffer, x, 1)
    }
}

impl PacketRead for i8 {
    open spec fn parse(bytes: Seq<u8>) -> Result<(i8, nat), PacketError> {
        match parse_fixed(bytes, 1) {
            Ok((x, used)) => Ok((untwos(x, 1) as i8, used)),
            Err(e) => Err(e),
        }
    }

    fn decode(data: &[u8], start: usize) -> (r: Result<(i8, usize), PacketError>) {
        proof {
            lemma_radix_values();
        }
        match decode_fixed(data, start, 1) {
            Ok((x, end)) => {
                let value: i8 = if x < 0x80 {
                    x as i8
                } else {
                    (x as i128 - 0x100) as i8
                };
                Ok((value, end))
            },
            Err(e) => Err(e),
        }
    }
}

impl PacketWrite for i16 {
    open spec fn wire(&self) -> Seq<u8> {
        be_bytes(twos(*self as int, 2), 2)
    }

    open spec fn wire_error(&self) -> Option<PacketError> {
        None
    }

    fn check(&self) -> (r: Result<(), PacketError>) {
        Ok(())
    }

    fn size(&self) -> (n: usize) {
        proof {
            lemma_be_bytes_len(twos(*self as int, 2), 2);
            assert(self.wire().len() == 2);
        }
        2
    }

    fn put(&self, buffer: &mut BytesMut) {
        proof {
            lemma_radix_values();
            lemma_be_bytes_len(twos(*self as int, 2), 2);
            assert(self.wire() == be_bytes(twos(*self as int, 2), 2));
            assert(self.wire().len() == 2);
        }
        let x: u128 = if *self >= 0 {
            *self as u128
        } else {
            (*self as i128 + 0x1_0000) as u128
        };
        put_be(buffer, x, 2)
    }
}

impl PacketRead for i16 {
    open spec fn parse(bytes: Seq<u8>) -> Result<(i16, nat), PacketError> {
        match parse_fixed(bytes, 2) {
            Ok((x, used)) => Ok((untwos(x, 2) as i16, used)),
            Err(e) => Err(e),
        }
    }

    fn decode(data: &[u8], start: usize) -> (r: Result<(i16, usize), PacketError>) {
        proof {
            lemma_radix_values();
        }
        match decode_fixed(data, start, 2) {
            Ok((x, end)) => {
                let value: i16 = if x < 0x8000 {
                    x as i16
                } else {
                    (x as i128 - 0x1_0000) as i16
                };
                Ok((value, end))
            },
            Err(e) => Err(e),
        }
    }
}

impl PacketWrite for i32 {
    open spec fn wire(&self) -> Seq<u8> {
        be_bytes(twos(*self as int, 4), 4)
    }

    open spec fn wire_error(&self) -> Option<PacketError> {
        None
    }

    fn check(&self) -> (r: Result<(), PacketError>) {
        Ok(())
    }

    fn size(&self) -> (n: usize) {
        proof {
            lemma_be_bytes_len(twos(*self as int, 4), 4);
            assert(self.wire().len() == 4);
        }
        4
    }

    fn put(&self, buffer: &mut BytesMut) {
        proof {
            lemma_radix_values();
            lemma_be_bytes_len(twos(*self as int, 4), 4);
            assert(self.wire() == be_bytes(twos(*self as int, 4), 4));
            assert(self.wire().len() == 4);
        }
        let x: u128 = if *self >= 0 {
            *self as u128
        } else {
            (*self as i128 + 0x1_0000_0000) as u128
        };
        put_be(buffer, x, 4)
    }
}

impl PacketRead for i32 {
    open spec fn parse(bytes: Seq<u8>) -> Result<(i32, nat), PacketError> {
        match parse_fixed(bytes, 4) {
            Ok((x, used)) => Ok((untwos(x, 4) as i32, used)),
            Err(e) => Err(e),
        }
    }

    fn decode(data: &[u8], start: usize) -> (r: Result<(i32, usize), PacketError>) {
        proof {
            lemma_radix_values();
        }
        match decode_fixed(data, start, 4) {
            Ok((x, end)) => {
                let value: i32 = if x < 0x8000_0000 {
                    x as i32
                } else {
                    (x as i128 - 0x1_0000_0000) as i32
                };
                Ok((value, end))
            },
            Err(e) => Err(e),
        }
    }
}

impl PacketWrite for i64 {
    open spec fn wire(&self) -> Seq<u8> {
        be_bytes(twos(*self as int, 8), 8)
    }

    open spec fn wire_error(&self) -> Option<PacketError> {
        None
    }

    fn check(&self) -> (r: Result<(), PacketError>) {
        Ok(())
    }

    fn size(&self) -> (n: usize) {
        proof {
            lemma_be_bytes_len(twos(*self as int, 8), 8);
            assert(self.wire().len() == 8);
        }
        8
    }

    fn put(&self, buffer: &mut BytesMut) {
        proof {
            lemma_radix_values();
            lemma_be_bytes_len(twos(*self as int, 8), 8);
            assert(self.wire() == be_bytes(twos(*self as int, 8), 8));
            assert(self.wire().len() == 8);
        }
        let x: u128 = if *self >= 0 {
            *self as u128
        } else {
            (*self as i128 + 0x1_0000_0000_0000_0000) as u128
        };
        put_be(buffer, x, 8)
    }
}

impl PacketRead for i64 {
    open spec fn parse(bytes: Seq<u8>) -> Result<(i64, nat), PacketError> {
        match parse_fixed(bytes, 8) {
            Ok((x, used)) => Ok((untwos(x, 8) as i64, used)),
            Err(e) => Err(e),
        }
    }

    fn decode(data: &[u8], start: usize) -> (r: Result<(i64, usize), PacketError>) {
        proof {
            lemma_radix_values();
        }
        match decode_fixed(data, start, 8) {
            Ok((x, end)) => {
                let value: i64 = if x < 0x8000_0000_0000_0000 {
                    x as i64
                } else {
                    (x as i128 - 0x1_0000_0000_0000_0000) as i64
                };
                Ok((value, end))
            },
            Err(e) => Err(e),
        }
    }
}

impl PacketWrite for bool {
    open spec fn wire(&self) -> Seq<u8> {
        seq![bool_byte(*self)]
    }

    open spec fn wire_error(&self) -> Option<PacketError> {
        None
    }

    fn check(&self) -> (r: Result<(), PacketError>) {
        Ok(())
    }

    fn size(&self) -> (n: usize) {
        1
    }

    fn put(&self, buffer: &mut BytesMut) {
        put_u8(
            buffer,
            if *self {
                1
            } else {
                0
            },
        );
        assert(contents(*buffer) =~= contents(*old(buffer)) + self.wire());
    }
}

impl PacketRead for bool {
    open spec fn parse(bytes: Seq<u8>) -> Result<(bool, nat), PacketError> {
        if bytes.len() < 1 {
            Err(PacketError::Incomplete)
        } else {
            Ok((bytes[0] != 0, 1))
        }
    }

    fn decode(data: &[u8], start: usize) -> (r: Result<(bool, usize), PacketError>) {
        if start >= data.len() {
            return Err(PacketError::Incomplete);
        }
        Ok((data[start] != 0, start + 1))
    }
}

/// The bytes of the text `text` on the wire: the number of its UTF-8
/// bytes, then the bytes.
pub open spec fn string_wire(text: Seq<char>) -> Seq<u8> {
    VarInt(encode_utf8(text).len() as i32).wire() + encode_utf8(text)
}

/// Whether `text` is too long for the wire.
pub open spec fn string_too_long(text: Seq<char>) -> bool {
    encode_utf8(text).len() > MAX_STRING_BYTES
}

impl PacketWrite for String {
    open spec fn wire(&self) -> Seq<u8> {
        string_wire(self@)
    }

    open spec fn wire_error(&self) -> Option<PacketError> {
        if string_too_long(self@) {
            Some(PacketError::StringTooLong)
        } else {
            None
        }
    }

    fn check(&self) -> (r: Result<(), PacketError>) {
        if self.as_str().as_bytes().len() > MAX_STRING_BYTES {
            Err(PacketError::StringTooLong)
        } else {
            Ok(())
        }
    }

    fn size(&self) -> (n: usize) {
        let bytes = self.as_str().as_bytes();
        VarInt(bytes.len() as i32).wire_len() + bytes.len()
    }

    fn put(&self, buffer: &mut BytesMut) {
        let bytes = self.as_str().as_bytes();
        VarInt(bytes.len() as i32).put(buffer);
        put_slice(buffer, bytes);
        assert(contents(*buffer) =~= contents(*old(buffer)) + self.wire());
    }
}

impl PacketRead for String {
    open spec fn parse(bytes: Seq<u8>) -> Result<(Seq<char>, nat), PacketError> {
        parse_string(bytes)
    }

    fn decode(data: &[u8], start: usize) -> (r: Result<(String, usize), PacketError>) {
        let ghost bytes = data@.skip(start as int);
        match VarInt::decode(data, start) {
            Err(e) => Err(e),
            Ok((count, body_start)) => {
                if count.0 > MAX_STRING_BYTES as i32 {
                    return Err(PacketError::StringTooLong);
                }
                if count.0 < 0 {
                    return Err(PacketError::Incomplete);
                }
                let n: usize = count.0 as usize;
                if data.len() - body_start < n {
                    return Err(PacketError::Incomplete);
                }
                let body = slice_subrange(data, body_start, body_start + n);
                assert(body@ =~= bytes.subrange(body_start - start, body_start - start + n));
                match str_from_utf8(body) {
                    Some(text) => Ok((text.to_owned(), body_start + n)),
                    None => Err(PacketError::Utf8),
                }
            },
        }
    }
}

/// Decoding a written `u8` gives it back and takes exactly its bytes.
pub proof fn lemma_u8_round_trip(v: u8, rest: Seq<u8>)
    ensures
        u8::parse(v.wire() + rest) == Ok::<(u8, nat), PacketError>((v, v.wire().len())),
{
    lemma_radix_values();
    lemma_fixed_round_trip(v as nat, 1, rest);
    lemma_be_bytes_len(v as nat, 1);
}

/// Decoding a written `u16` gives it back and takes exactly its bytes.
pub proof fn lemma_u16_round_trip(v: u16, rest: Seq<u8>)
    ensures
        u16::parse(v.wire() + rest) == Ok::<(u16, nat), PacketError>((v, v.wire().len())),
{
    lemma_radix_values();
    lemma_fixed_round_trip(v as nat, 2, rest);
    lemma_be_bytes_len(v as nat, 2);
}

/// Decoding a written `u32` gives it back and takes exactly its bytes.
pub proof fn lemma_u32_round_trip(v: u32, rest: Seq<u8>)
    ensures
        u32::parse(v.wire() + rest) == Ok::<(u32, nat), PacketError>((v, v.wire().len())),
{
    lemma_radix_values();
    lemma_fixed_round_trip(v as nat, 4, rest);
    lemma_be_bytes_len(v as nat, 4);
}

/// Decoding a written `u64` gives it back and takes exactly its bytes.
pub proof fn lemma_u64_round_trip(v: u64, rest: Seq<u8>)
    ensures
        u64::parse(v.wire() + rest) == Ok::<(u64, nat), PacketError>((v, v.wire().len())),
{
    lemma_radix_values();
    lemma_fixed_round_trip(v as nat, 8, rest);
    lemma_be_bytes_len(v as nat, 8);
}

/// Decoding a written `u128` gives it back and takes exactly its bytes.
pub proof fn lemma_u128_round_trip(v: u128, rest: Seq<u8>)
    ensures
        u128::parse(v.wire() + rest) == Ok::<(u128, nat), PacketError>((v, v.wire().len())),
{
    lemma_radix_values();
    lemma_fixed_round_trip(v as nat, 16, rest);
    lemma_be_bytes_len(v as nat, 16);
}

/// Decoding a written `i8` gives it back and takes exactly its bytes.
pub proof fn lemma_i8_round_trip(v: i8, rest: Seq<u8>)
    ensures
        i8::parse(v.wire() + rest) == Ok::<(i8, nat), PacketError>((v, v.wire().len())),
{
    lemma_radix_values();
    lemma_fixed_round_trip(twos(v as int, 1), 1, rest);
    lemma_be_bytes_len(twos(v as int, 1), 1);
}

/// Decoding a written `i16` gives it back and takes exactly its bytes.
pub proof fn lemma_i16_round_trip(v: i16, rest: Seq<u8>)
    ensures
        i16::parse(v.wire() + rest) == Ok::<(i16, nat), PacketError>((v, v.wire().len())),
{
    lemma_radix_values();
    lemma_fixed_round_trip(twos(v as int, 2), 2, rest);
    lemma_be_bytes_len(twos(v as int, 2), 2);
}

/// Decoding a written `i32` gives it back and takes exactly its bytes.
pub proof fn lemma_i32_round_trip(v: i32, rest: Seq<u8>)
    ensures
        i32::parse(v.wire() + rest) == Ok::<(i32, nat), PacketError>((v, v.wire().len())),
{
    lemma_radix_values();
    lemma_fixed_round_trip(twos(v as int, 4), 4, rest);
    lemma_be_bytes_len(twos(v as int, 4), 4);
}

/// Decoding a written `i64` gives it back and takes exactly its bytes.
pub proof fn lemma_i64_round_trip(v: i64, rest: Seq<u8>)
    ensures
        i64::parse(v.wire() + rest) == Ok::<(i64, nat), PacketError>((v, v.wire().len())),
{
    lemma_radix_values();
    lemma_fixed_round_trip(twos(v as int, 8), 8, rest);
    lemma_be_bytes_len(twos(v as int, 8), 8);
}

/// Decoding a written `bool` gives it back and takes exactly its byte.
pub proof fn lemma_bool_round_trip(v: bool, rest: Seq<u8>)
    ensures
        bool::parse(v.wire() + rest) == Ok::<(bool, nat), PacketError>((v, v.wire().len())),
{
}

/// Decoding a written string of at most 32767 bytes gives its text back
/// and takes exactly its bytes.
pub proof fn lemma_string_round_trip(text: String, rest: Seq<u8>)
    requires
        encode_utf8(text@).len() <= MAX_STRING_BYTES,
    ensures
        String::parse(text.wire() + rest) == Ok::<(Seq<char>, nat), PacketError>(
            (text@, text.wire().len()),
        ),
{
    broadcast use vstd::utf8::encode_utf8_valid_utf8, vstd::utf8::encode_utf8_decode_utf8;

    let body = encode_utf8(text@);
    let count = VarInt(body.len() as i32);
    let bytes = text.wire() + rest;
    lemma_var_int_round_trip(count.0, body + rest);
    assert(bytes =~= count.wire() + (body + rest));
    let used = count.wire().len();
    assert(bytes.subrange(used as int, used + count.0) =~= body);
}

} // verus!
