//! Reading values from bytes.

use crate::buffer::{advance, as_slice, contents};
use crate::nbt::{
    entry_views, tag_of, upsert, value_views, entry_index, Entry, EntryView, TagId, Value,
    ValueView,
};
use crate::protocol::serial::{PacketError, PacketRead};
use crate::protocol::types::{be_value, untwos};
use crate::text::{same_text, str_from_utf8};
use bytes::BytesMut;
use vstd::prelude::*;
use vstd::slice::slice_subrange;
use vstd::utf8::{decode_utf8, valid_utf8};

verus! {

/// What reading a text from the head of `bytes` gives: the number of its
/// bytes in two bytes, then its UTF-8 bytes.
pub open spec fn parse_name(bytes: Seq<u8>) -> Result<(Seq<char>, nat), PacketError> {
    match u16::parse(bytes) {
        Err(e) => Err(e),
        Ok((n, _)) => if bytes.len() - 2 < n {
            Err(PacketError::Incomplete)
        } else if valid_utf8(bytes.subrange(2, 2 + n)) {
            Ok((decode_utf8(bytes.subrange(2, 2 + n)), (2 + n) as nat))
        } else {
            Err(PacketError::Utf8)
        },
    }
}

/// What reading a length from the head of `bytes` gives: a 32-bit number
/// that is not negative.
pub open spec fn parse_length(bytes: Seq<u8>) -> Result<nat, PacketError> {
    match i32::parse(bytes) {
        Err(e) => Err(e),
        Ok((n, _)) => if n < 0 {
            Err(PacketError::BadLength)
        } else {
            Ok(n as nat)
        },
    }
}

/// The `i`-th of the numbers of `width` bytes each that `bytes` holds,
/// read as a number with a sign.
pub open spec fn number_at(bytes: Seq<u8>, width: nat, i: int) -> int {
    untwos(be_value(bytes.subrange(i * width, i * width + width)), width)
}

/// What reading `n` values of the kind `tag`, one after the other, from
/// the head of `bytes` gives.
pub open spec fn parse_values(bytes: Seq<u8>, tag: TagId, n: nat) -> Result<
    (Seq<ValueView>, nat),
    PacketError,
>
    decreases bytes.len(), n + 3,
{
    if n == 0 {
        Ok((Seq::empty(), 0))
    } else {
        match parse_value(bytes, tag) {
            Err(e) => Err(e),
            Ok((first, used)) => if used > bytes.len() {
                Err(PacketError::Incomplete)
            } else {
                match parse_values(bytes.skip(used as int), tag, (n - 1) as nat) {
                    Err(e) => Err(e),
                    Ok((rest, more)) => Ok((seq![first] + rest, used + more)),
                }
            },
        }
    }
}

/// What reading the entries of a compound from the head of `bytes` gives,
/// where `before` were read already: entries up to the end tag, a later
/// entry taking the place of an earlier one under the same name.
pub open spec fn parse_entries(bytes: Seq<u8>, before: Seq<EntryView>) -> Result<
    (Seq<EntryView>, nat),
    PacketError,
>
    decreases bytes.len(), 1nat,
{
    if bytes.len() == 0 {
        Err(PacketError::Incomplete)
    } else if bytes[0] == 0 {
        Ok((before, 1))
    } else {
        match parse_entry(bytes) {
            Err(e) => Err(e),
            Ok((name, value, used)) => if used < 1 || used > bytes.len() {
                Err(PacketError::Incomplete)
            } else {
                match parse_entries(bytes.skip(used as int), upsert(before, name, value)) {
                    Err(e) => Err(e),
                    Ok((entries, more)) => Ok((entries, used + more)),
                }
            },
        }
    }
}

/// What reading a value of the kind `tag` from the head of `bytes` gives:
/// the value and the number of bytes it took, or the error.
pub open spec fn parse_value(bytes: Seq<u8>, tag: TagId) -> Result<(ValueView, nat), PacketError>
    decreases bytes.len(), 2nat,
{
    match tag {
        TagId::End => Err(PacketError::InvalidData),
        TagId::Byte => match i8::parse(bytes) {
            Ok((x, used)) => Ok((ValueView::Byte(x), used)),
            Err(e) => Err(e),
        },
        TagId::Short => match i16::parse(bytes) {
            Ok((x, used)) => Ok((ValueView::Short(x), used)),
            Err(e) => Err(e),
        },
        TagId::Int => match i32::parse(bytes) {
            Ok((x, used)) => Ok((ValueView::Int(x), used)),
            Err(e) => Err(e),
        },
        TagId::Long => match i64::parse(bytes) {
            Ok((x, used)) => Ok((ValueView::Long(x), used)),
            Err(e) => Err(e),
        },
        TagId::Float => match u32::parse(bytes) {
            Ok((x, used)) => Ok((ValueView::Float(x), used)),
            Err(e) => Err(e),
        },
        TagId::Double => match u64::parse(bytes) {
            Ok((x, used)) => Ok((ValueView::Double(x), used)),
            Err(e) => Err(e),
        },
        TagId::String => match parse_name(bytes) {
            Ok((text, used)) => Ok((ValueView::String(text), used)),
            Err(e) => Err(e),
        },
        TagId::ByteArray => match parse_length(bytes) {
            Err(e) => Err(e),
            Ok(n) => if bytes.len() - 4 < n {
                Err(PacketError::Incomplete)
            } else {
                Ok((ValueView::ByteArray(bytes.subrange(4, 4 + n as int)), 4 + n))
            },
        },
        TagId::IntArray => match parse_length(bytes) {
            Err(e) => Err(e),
            Ok(n) => if bytes.len() - 4 < 4 * n {
                Err(PacketError::Incomplete)
            } else {
                Ok(
                    (
                        ValueView::IntArray(
                            Seq::new(n, |i: int| number_at(bytes.skip(4), 4, i) as i32),
                        ),
                        4 + 4 * n,
                    ),
                )
            },
        },
        TagId::LongArray => match parse_length(bytes) {
            Err(e) => Err(e),
            Ok(n) => if bytes.len() - 4 < 8 * n {
                Err(PacketError::Incomplete)
            } else {
                Ok(
                    (
                        ValueView::LongArray(
                            Seq::new(n, |i: int| number_at(bytes.skip(4), 8, i) as i64),
                        ),
                        4 + 8 * n,
                    ),
                )
            },
        },
        TagId::List => match u8::parse(bytes) {
            Err(e) => Err(e),
            Ok((kind, _)) => match i32::parse(bytes.skip(1)) {
                Err(e) => Err(e),
                Ok((n, _)) => if n > 0 && tag_of(kind) != TagId::End {
                    if bytes.len() < 5 {
                        Err(PacketError::Incomplete)
                    } else {
                        match parse_values(bytes.skip(5), tag_of(kind), n as nat) {
                            Err(e) => Err(e),
                            Ok((items, used)) => Ok((ValueView::List(items), 5 + used)),
                        }
                    }
                } else {
                    Ok((ValueView::List(Seq::empty()), 5))
                },
            },
        },
        TagId::Compound => match parse_entries(bytes, Seq::empty()) {
            Err(e) => Err(e),
            Ok((entries, used)) => Ok((ValueView::Compound(entries), used)),
        },
    }
}

fn decode_name(data: &[u8], start: usize) -> (r: Result<(String, usize), PacketError>)
    requires
        start <= data@.len(),
    ensures
        match parse_name(data@.skip(start as int)) {
            Ok((text, used)) => r matches Ok((x, end)) && x@ == text && end == start + used && end
                <= data@.len(),
            Err(e) => r matches Err(f) && f == e,
        },
{
    let ghost bytes = data@.skip(start as int);
    match u16::decode(data, start) {
        Err(e) => Err(e),
        Ok((n, body)) => {
            let n: usize = n as usize;
            if data.len() - body < n {
                return Err(PacketError::Incomplete);
            }
            let part = slice_subrange(data, body, body + n);
            assert(part@ =~= bytes.subrange(2, 2 + n));
            match str_from_utf8(part) {
                Some(text) => Ok((text.to_owned(), body + n)),
                None => Err(PacketError::Utf8),
            }
        },
    }
}

fn decode_length(data: &[u8], start: usize) -> (r: Result<usize, PacketError>)
    requires
        start <= data@.len(),
    ensures
        match parse_length(data@.skip(start as int)) {
            Ok(n) => r matches Ok(x) && x == n && n <= i32::MAX && start + 4 <= data@.len()
                <= usize::MAX,
            Err(e) => r matches Err(f) && f == e,
        },
{
    let total: usize = data.len();
    match i32::decode(data, start) {
        Err(e) => Err(e),
        Ok((n, end)) => {
            if n < 0 {
                Err(PacketError::BadLength)
            } else {
                Ok(n as usize)
            }
        },
    }
}

/// Puts `value` under `name` into `entries`: in place of the entry under
/// that name, or behind all entries if there is none.
fn put_entry(entries: &mut Vec<Entry>, name: String, value: Value)
    ensures
        entry_views(final(entries)@) == upsert(entry_views(old(entries)@), name@, value@),
{
    let ghost before = entry_views(entries@);
    let total: usize = entries.len();
    let mut at: usize = 0;
    let mut found: usize = total;
    while at < total && found == total
        invariant
            at <= total == entries@.len(),
            entry_views(entries@) == before,
            found == total || (found < at && before[found as int].name == name@),
            entry_index(before, name@, 0) == if found < total {
                found as int
            } else {
                entry_index(before, name@, at as int)
            },
        decreases total - at,
    {
        assert(before[at as int] == entries@[at as int]@);
        if same_text(&entries[at].name, &name) {
            found = at;
        }
        at += 1;
    }
    if found < total {
        entries.set(found, Entry { name, value });
        assert(entry_views(entries@) =~= before.update(
            found as int,
            EntryView { name: name@, value: value@ },
        ));
    } else {
        entries.push(Entry { name, value });
        assert(entry_views(entries@) =~= before.push(EntryView { name: name@, value: value@ }));
    }
}

fn decode_values(data: &[u8], start: usize, tag: TagId, n: usize) -> (r: Result<
    (Vec<Value>, usize),
    PacketError,
>)
    requires
        start <= data@.len(),
    ensures
        match parse_values(data@.skip(start as int), tag, n as nat) {
            Ok((items, used)) => r matches Ok((x, end)) && value_views(x@) == items && end == start
                + used && end <= data@.len(),
            Err(e) => r matches Err(f) && f == e,
        },
    decreases data@.len() - start, 5nat,
{
    let ghost whole = parse_values(data@.skip(start as int), tag, n as nat);
    let mut items: Vec<Value> = Vec::new();
    let mut at: usize = start;
    let mut i: usize = 0;
    assert(value_views(items@) =~= Seq::empty());
    while i < n
        invariant
            i <= n,
            start <= at <= data@.len(),
            whole == parse_values(data@.skip(start as int), tag, n as nat),
            whole == match parse_values(data@.skip(at as int), tag, (n - i) as nat) {
                Err(e) => Err(e),
                Ok((rest, more)) => Ok((value_views(items@) + rest, (at - start + more) as nat)),
            },
        decreases n - i,
    {
        let ghost done = value_views(items@);
        match Value::decode(data, at, tag) {
            Err(e) => {
                return Err(e);
            },
            Ok((item, next)) => {
                proof {
                    let v = item@;
                    assert(data@.skip(at as int).skip(next - at) =~= data@.skip(next as int));
                    match parse_values(data@.skip(next as int), tag, (n - i - 1) as nat) {
                        Err(e) => {},
                        Ok((rest, more)) => {
                            assert(done + (seq![v] + rest) =~= done.push(v) + rest);
                        },
                    }
                }
                items.push(item);
                proof {
                    assert(value_views(items@) =~= done.push(item@));
                }
                at = next;
            },
        }
        i += 1;
    }
    proof {
        assert(value_views(items@) + Seq::empty() =~= value_views(items@));
    }
    Ok((items, at))
}

/// What reading one entry behind its kind byte gives: its name, its value
/// and the bytes both took, the kind byte counted.
pub open spec fn parse_entry(bytes: Seq<u8>) -> Result<(Seq<char>, ValueView, nat), PacketError>
    decreases bytes.len(), 0nat,
{
    if bytes.len() == 0 {
        Err(PacketError::Incomplete)
    } else {
        match parse_name(bytes.skip(1)) {
            Err(e) => Err(e),
            Ok((name, u)) => match parse_value(bytes.skip(1 + u as int), tag_of(bytes[0])) {
                Err(e) => Err(e),
                Ok((value, w)) => if 1 + u + w > bytes.len() {
                    Err(PacketError::Incomplete)
                } else {
                    Ok((name, value, 1 + u + w))
                },
            },
        }
    }
}

fn decode_entry(data: &[u8], at: usize, kind: u8) -> (r: Result<
    (String, Value, usize),
    PacketError,
>)
    requires
        at < data@.len(),
        kind == data@[at as int],
    ensures
        match parse_entry(data@.skip(at as int)) {
            Ok((name, value, used)) => r matches Ok((n, v, end)) && n@ == name && v@ == value
                && end == at + used && end <= data@.len(),
            Err(e) => r matches Err(f) && f == e,
        },
    decreases data@.len() - at, 1nat,
{
    let ghost bytes = data@.skip(at as int);
    let total: usize = data.len();
    assert(bytes[0] == kind);
    assert(bytes.skip(1) =~= data@.skip(at + 1));
    let (name, value_start) = match decode_name(data, at + 1) {
        Ok(x) => x,
        Err(e) => {
            return Err(e);
        },
    };
    assert(bytes.skip(1 + (value_start - at - 1)) =~= data@.skip(value_start as int));
    let (value, next) = match Value::decode(data, value_start, TagId::from(kind)) {
        Ok(x) => x,
        Err(e) => {
            return Err(e);
        },
    };
    Ok((name, value, next))
}

fn decode_entries(data: &[u8], start: usize) -> (r: Result<(Vec<Entry>, usize), PacketError>)
    requires
        start <= data@.len(),
    ensures
        match parse_entries(data@.skip(start as int), Seq::empty()) {
            Ok((entries, used)) => r matches Ok((x, end)) && entry_views(x@) == entries && end
                == start + used && end <= data@.len(),
            Err(e) => r matches Err(f) && f == e,
        },
    decreases data@.len() - start, 2nat,
{
    let ghost whole = parse_entries(data@.skip(start as int), Seq::empty());
    let mut entries: Vec<Entry> = Vec::new();
    let mut at: usize = start;
    let total: usize = data.len();
    assert(entry_views(entries@) =~= Seq::empty());
    loop
        invariant
            start <= at <= data@.len() == total,
            whole == parse_entries(data@.skip(start as int), Seq::empty()),
            whole == match parse_entries(data@.skip(at as int), entry_views(entries@)) {
                Err(e) => Err(e),
                Ok((all, more)) => Ok((all, (at - start + more) as nat)),
            },
        decreases total - at,
    {
        let ghost bytes = data@.skip(at as int);
        if at >= total {
            return Err(PacketError::Incomplete);
        }
        let kind: u8 = data[at];
        assert(bytes[0] == kind);
        if kind == 0 {
            return Ok((entries, at + 1));
        }
        let (name, value, next) = match decode_entry(data, at, kind) {
            Ok(x) => x,
            Err(e) => {
                return Err(e);
            },
        };
        assert(bytes.skip(next - at) =~= data@.skip(next as int));
        put_entry(&mut entries, name, value);
        at = next;
    }
}

fn decode_ints(data: &[u8], start: usize, n: usize) -> (items: Vec<i32>)
    requires
        start + 4 * n <= data@.len(),
    ensures
        items@ == Seq::new(n as nat, |i: int| number_at(data@.skip(start as int), 4, i) as i32),
{
    let ghost bytes = data@.skip(start as int);
    let total: usize = data.len();
    let mut items: Vec<i32> = Vec::new();
    let mut i: usize = 0;
    while i < n
        invariant
            i <= n,
            start + 4 * n <= data@.len() == total,
            bytes == data@.skip(start as int),
            items@.len() == i,
            forall|k: int| 0 <= k < i ==> items@[k] == number_at(bytes, 4, k) as i32,
        decreases n - i,
    {
        let at: usize = start + 4 * i;
        assert(data@.skip(at as int).take(4) =~= bytes.subrange(i * 4, i * 4 + 4));
        match i32::decode(data, at) {
            Ok((x, _)) => {
                items.push(x);
            },
            Err(_) => {
                assert(false);
            },
        }
        i += 1;
    }
    assert(items@ =~= Seq::new(n as nat, |i: int| number_at(bytes, 4, i) as i32));
    items
}

fn decode_longs(data: &[u8], start: usize, n: usize) -> (items: Vec<i64>)
    requires
        start + 8 * n <= data@.len(),
    ensures
        items@ == Seq::new(n as nat, |i: int| number_at(data@.skip(start as int), 8, i) as i64),
{
    let ghost bytes = data@.skip(start as int);
    let total: usize = data.len();
    let mut items: Vec<i64> = Vec::new();
    let mut i: usize = 0;
    while i < n
        invariant
            i <= n,
            start + 8 * n <= data@.len() == total,
            bytes == data@.skip(start as int),
            items@.len() == i,
            forall|k: int| 0 <= k < i ==> items@[k] == number_at(bytes, 8, k) as i64,
        decreases n - i,
    {
        let at: usize = start + 8 * i;
        assert(data@.skip(at as int).take(8) =~= bytes.subrange(i * 8, i * 8 + 8));
        match i64::decode(data, at) {
            Ok((x, _)) => {
                items.push(x);
            },
            Err(_) => {
                assert(false);
            },
        }
        i += 1;
    }
    assert(items@ =~= Seq::new(n as nat, |i: int| number_at(bytes, 8, i) as i64));
    items
}

fn copy_bytes(data: &[u8], from: usize, to: usize) -> (bytes: Vec<u8>)
    requires
        from <= to <= data@.len(),
    ensures
        bytes@ == data@.subrange(from as int, to as int),
{
    let mut bytes: Vec<u8> = Vec::new();
    let mut i: usize = from;
    while i < to
        invariant
            from <= i <= to <= data@.len(),
            bytes@ == data@.subrange(from as int, i as int),
        decreases to - i,
    {
        bytes.push(data[i]);
        assert(bytes@ =~= data@.subrange(from as int, i + 1));
        i += 1;
    }
    bytes
}

fn decode_end(data: &[u8], start: usize) -> (r: Result<(Value, usize), PacketError>)
    requires
        start <= data@.len(),
    ensures
        match parse_value(data@.skip(start as int), TagId::End) {
            Ok((v, used)) => r matches Ok((x, end)) && x@ == v && end == start + used && end
                <= data@.len(),
            Err(e) => r matches Err(f) && f == e,
        },
{
    Err(PacketError::InvalidData)
}

fn decode_byte(data: &[u8], start: usize) -> (r: Result<(Value, usize), PacketError>)
    requires
        start <= data@.len(),
    ensures
        match parse_value(data@.skip(start as int), TagId::Byte) {
            Ok((v, used)) => r matches Ok((x, end)) && x@ == v && end == start + used && end
                <= data@.len(),
            Err(e) => r matches Err(f) && f == e,
        },
{
    match i8::decode(data, start) {
        Ok((x, end)) => Ok((Value::Byte(x), end)),
        Err(e) => Err(e),
    }
}

fn decode_short(data: &[u8], start: usize) -> (r: Result<(Value, usize), PacketError>)
    requires
        start <= data@.len(),
    ensures
        match parse_value(data@.skip(start as int), TagId::Short) {
            Ok((v, used)) => r matches Ok((x, end)) && x@ == v && end == start + used && end
                <= data@.len(),
            Err(e) => r matches Err(f) && f == e,
        },
{
    match i16::decode(data, start) {
        Ok((x, end)) => Ok((Value::Short(x), end)),
        Err(e) => Err(e),
    }
}

fn decode_int(data: &[u8], start: usize) -> (r: Result<(Value, usize), PacketError>)
    requires
        start <= data@.len(),
    ensures
        match parse_value(data@.skip(start as int), TagId::Int) {
            Ok((v, used)) => r matches Ok((x, end)) && x@ == v && end == start + used && end
                <= data@.len(),
            Err(e) => r matches Err(f) && f == e,
        },
{
    match i32::decode(data, start) {
        Ok((x, end)) => Ok((Value::Int(x), end)),
        Err(e) => Err(e),
    }
}

fn decode_long(data: &[u8], start: usize) -> (r: Result<(Value, usize), PacketError>)
    requires
        start <= data@.len(),
    ensures
        match parse_value(data@.skip(start as int), TagId::Long) {
            Ok((v, used)) => r matches Ok((x, end)) && x@ == v && end == start + used && end
                <= data@.len(),
            Err(e) => r matches Err(f) && f == e,
        },
{
    match i64::decode(data, start) {
        Ok((x, end)) => Ok((Value::Long(x), end)),
        Err(e) => Err(e),
    }
}

fn decode_float(data: &[u8], start: usize) -> (r: Result<(Value, usize), PacketError>)
    requires
        start <= data@.len(),
    ensures
        match parse_value(data@.skip(start as int), TagId::Float) {
            Ok((v, used)) => r matches Ok((x, end)) && x@ == v && end == start + used && end
                <= data@.len(),
            Err(e) => r matches Err(f) && f == e,
        },
{
    match u32::decode(data, start) {
        Ok((x, end)) => Ok((Value::Float(x), end)),
        Err(e) => Err(e),
    }
}

fn decode_double(data: &[u8], start: usize) -> (r: Result<(Value, usize), PacketError>)
    requires
        start <= data@.len(),
    ensures
        match parse_value(data@.skip(start as int), TagId::Double) {
            Ok((v, used)) => r matches Ok((x, end)) && x@ == v && end == start + used && end
                <= data@.len(),
            Err(e) => r matches Err(f) && f == e,
        },
{
    match u64::decode(data, start) {
        Ok((x, end)) => Ok((Value::Double(x), end)),
        Err(e) => Err(e),
    }
}

fn decode_string(data: &[u8], start: usize) -> (r: Result<(Value, usize), PacketError>)
    requires
        start <= data@.len(),
    ensures
        match parse_value(data@.skip(start as int), TagId::String) {
            Ok((v, used)) => r matches Ok((x, end)) && x@ == v && end == start + used && end
                <= data@.len(),
            Err(e) => r matches Err(f) && f == e,
        },
{
    match decode_name(data, start) {
        Ok((text, end)) => Ok((Value::String(text), end)),
        Err(e) => Err(e),
    }
}

fn decode_compound(data: &[u8], start: usize) -> (r: Result<(Value, usize), PacketError>)
    requires
        start <= data@.len(),
    ensures
        match parse_value(data@.skip(start as int), TagId::Compound) {
            Ok((v, used)) => r matches Ok((x, end)) && x@ == v && end == start + used && end
                <= data@.len(),
            Err(e) => r matches Err(f) && f == e,
        },
    decreases data@.len() - start, 3nat,
{
    match decode_entries(data, start) {
        Err(e) => Err(e),
        Ok((entries, end)) => {
            let compound = Value::Compound(entries);
            assert(compound@->Compound_0 =~= entry_views(entries@));
            Ok((compound, end))
        },
    }
}

fn decode_byte_array(data: &[u8], start: usize) -> (r: Result<(Value, usize), PacketError>)
    requires
        start <= data@.len(),
    ensures
        match parse_value(data@.skip(start as int), TagId::ByteArray) {
            Ok((v, used)) => r matches Ok((x, end)) && x@ == v && end == start + used && end
                <= data@.len(),
            Err(e) => r matches Err(f) && f == e,
        },
{
    let ghost bytes = data@.skip(start as int);
    match decode_length(data, start) {
        Err(e) => Err(e),
        Ok(n) => {
            if data.len() - start - 4 < n {
                return Err(PacketError::Incomplete);
            }
            let items = copy_bytes(data, start + 4, start + 4 + n);
            assert(items@ =~= bytes.subrange(4, 4 + n));
            Ok((Value::ByteArray(items), start + 4 + n))
        },
    }
}

fn decode_int_array(data: &[u8], start: usize) -> (r: Result<(Value, usize), PacketError>)
    requires
        start <= data@.len(),
    ensures
        match parse_value(data@.skip(start as int), TagId::IntArray) {
            Ok((v, used)) => r matches Ok((x, end)) && x@ == v && end == start + used && end
                <= data@.len(),
            Err(e) => r matches Err(f) && f == e,
        },
{
    let ghost bytes = data@.skip(start as int);
    match decode_length(data, start) {
        Err(e) => Err(e),
        Ok(n) => {
            if ((data.len() - start - 4) as u64) < 4 * (n as u64) {
                return Err(PacketError::Incomplete);
            }
            assert(bytes.skip(4) =~= data@.skip(start + 4));
            let items = decode_ints(data, start + 4, n);
            Ok((Value::IntArray(items), start + 4 + 4 * n))
        },
    }
}

fn decode_long_array(data: &[u8], start: usize) -> (r: Result<(Value, usize), PacketError>)
    requires
        start <= data@.len(),
    ensures
        match parse_value(data@.skip(start as int), TagId::LongArray) {
            Ok((v, used)) => r matches Ok((x, end)) && x@ == v && end == start + used && end
                <= data@.len(),
            Err(e) => r matches Err(f) && f == e,
        },
{
    let ghost bytes = data@.skip(start as int);
    match decode_length(data, start) {
        Err(e) => Err(e),
        Ok(n) => {
            if ((data.len() - start - 4) as u64) < 8 * (n as u64) {
                return Err(PacketError::Incomplete);
            }
            assert(bytes.skip(4) =~= data@.skip(start + 4));
            let items = decode_longs(data, start + 4, n);
            Ok((Value::LongArray(items), start + 4 + 8 * n))
        },
    }
}

fn decode_list(data: &[u8], start: usize) -> (r: Result<(Value, usize), PacketError>)
    requires
        start <= data@.len(),
    ensures
        match parse_value(data@.skip(start as int), TagId::List) {
            Ok((v, used)) => r matches Ok((x, end)) && x@ == v && end == start + used && end
                <= data@.len(),
            Err(e) => r matches Err(f) && f == e,
        },
    decreases data@.len() - start, 3nat,
{
    let ghost bytes = data@.skip(start as int);
    let (kind, after_kind) = match u8::decode(data, start) {
        Ok(x) => x,
        Err(e) => {
            return Err(e);
        },
    };
    assert(bytes.skip(1) =~= data@.skip(after_kind as int));
    let (n, first) = match i32::decode(data, after_kind) {
        Ok(x) => x,
        Err(e) => {
            return Err(e);
        },
    };
    let element = TagId::from(kind);
    let typed = match element {
        TagId::End => false,
        _ => true,
    };
    if n > 0 && typed {
        assert(bytes.skip(5) =~= data@.skip(first as int));
        match decode_values(data, first, element, n as usize) {
            Err(e) => Err(e),
            Ok((items, end)) => {
                let list = Value::List(items);
                assert(list@->List_0 =~= value_views(items@));
                Ok((list, end))
            },
        }
    } else {
        let list = Value::List(Vec::new());
        assert(list@->List_0 =~= Seq::empty());
        Ok((list, first))
    }
}

impl Value {
    /// Decodes a value of the kind `type_id` from `data` at `start` and
    /// gives the place behind it. Nothing is consumed.
    pub fn decode(data: &[u8], start: usize, type_id: TagId) -> (r: Result<
        (Value, usize),
        PacketError,
    >)
        requires
            start <= data@.len(),
        ensures
            match parse_value(data@.skip(start as int), type_id) {
                Ok((v, used)) => r matches Ok((x, end)) && x@ == v && end == start + used && end
                    <= data@.len(),
                Err(e) => r matches Err(f) && f == e,
            },
        decreases data@.len() - start, 4nat,
    {
        match type_id {
            TagId::End => decode_end(data, start),
            TagId::Byte => decode_byte(data, start),
            TagId::Short => decode_short(data, start),
            TagId::Int => decode_int(data, start),
            TagId::Long => decode_long(data, start),
            TagId::Float => decode_float(data, start),
            TagId::Double => decode_double(data, start),
            TagId::String => decode_string(data, start),
            TagId::ByteArray => decode_byte_array(data, start),
            TagId::IntArray => decode_int_array(data, start),
            TagId::LongArray => decode_long_array(data, start),
            TagId::List => decode_list(data, start),
            TagId::Compound => decode_compound(data, start),
        }
    }

    /// Decodes a value of the kind `type_id` from the head of `buffer` and
    /// removes its bytes. On an error the buffer is left as it was.
    pub fn read_unnamed(buffer: &mut BytesMut, type_id: TagId) -> (r: Result<Value, PacketError>)
        ensures
            match parse_value(contents(*old(buffer)), type_id) {
                Ok((v, used)) => r matches Ok(x) && x@ == v && used <= contents(*old(buffer)).len()
                    && contents(*final(buffer)) == contents(*old(buffer)).skip(used as int),
                Err(e) => r matches Err(f) && f == e && contents(*final(buffer)) == contents(
                    *old(buffer),
                ),
            },
    {
        let decoded = Value::decode(as_slice(buffer), 0, type_id);
        proof {
            assert(contents(*buffer).skip(0) =~= contents(*buffer));
        }
        match decoded {
            Ok((value, end)) => {
                advance(buffer, end);
                Ok(value)
            },
            Err(e) => Err(e),
        }
    }
}

} // verus!
