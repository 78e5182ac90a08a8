//! Writing values as bytes.

use crate::buffer::{contents, put_slice, put_u8};
use crate::nbt::{
    entry_views, lemma_tag_round_trip, value_views, Entry, EntryView, Value, ValueView,
};
use crate::protocol::serial::{clamped, saturating_sum, PacketError, PacketWrite};
use crate::protocol::types::{be_bytes, lemma_be_bytes_len, twos};
use bytes::BytesMut;
use vstd::prelude::*;
use vstd::utf8::encode_utf8;

verus! {

/// The most bytes a text may take in this format.
pub const MAX_NAME_BYTES: usize = 65535;

/// The bytes of the text `text`: the number of its UTF-8 bytes in two
/// bytes, then the bytes.
pub open spec fn name_wire(text: Seq<char>) -> Seq<u8> {
    be_bytes(encode_utf8(text).len(), 2) + encode_utf8(text)
}

/// The bytes of the first `n` of `numbers`, four bytes each.
pub open spec fn ints_wire(numbers: Seq<i32>, n: nat) -> Seq<u8>
    decreases n,
{
    if n == 0 || n > numbers.len() {
        Seq::empty()
    } else {
        ints_wire(numbers, (n - 1) as nat) + numbers[n - 1].wire()
    }
}

/// The bytes of the first `n` of `numbers`, eight bytes each.
pub open spec fn longs_wire(numbers: Seq<i64>, n: nat) -> Seq<u8>
    decreases n,
{
    if n == 0 || n > numbers.len() {
        Seq::empty()
    } else {
        longs_wire(numbers, (n - 1) as nat) + numbers[n - 1].wire()
    }
}

/// The bytes of the first `n` of `items`, one value after the other.
pub open spec fn values_wire(items: Seq<ValueView>, n: nat) -> Seq<u8>
    decreases items, n,
{
    if n == 0 || n > items.len() {
        Seq::empty()
    } else {
        values_wire(items, (n - 1) as nat) + value_wire(items[n - 1])
    }
}

/// The bytes of one entry: the kind of its value, its name, its value.
pub open spec fn entry_wire(entry: EntryView) -> Seq<u8>
    decreases entry,
{
    seq![entry.value.tag().number()] + name_wire(entry.name) + value_wire(entry.value)
}

/// The bytes of the first `n` of `entries`, one entry after the other.
pub open spec fn entries_wire(entries: Seq<EntryView>, n: nat) -> Seq<u8>
    decreases entries, n,
{
    if n == 0 || n > entries.len() {
        Seq::empty()
    } else {
        entries_wire(entries, (n - 1) as nat) + entry_wire(entries[n - 1])
    }
}

/// The bytes of a value, without its name and its kind.
///
/// A list is the kind of its first value, the number of its values and
/// the values; an empty list has the end tag for a kind. A compound is its
/// entries and the end tag. An array is the number of its numbers and the
/// numbers.
pub open spec fn value_wire(v: ValueView) -> Seq<u8>
    decreases v,
{
    match v {
        ValueView::Byte(x) => x.wire(),
        ValueView::Short(x) => x.wire(),
        ValueView::Int(x) => x.wire(),
        ValueView::Long(x) => x.wire(),
        ValueView::Float(x) => x.wire(),
        ValueView::Double(x) => x.wire(),
        ValueView::String(text) => name_wire(text),
        ValueView::List(items) => if items.len() == 0 {
            seq![0u8] + be_bytes(0, 4)
        } else {
            seq![items[0].tag().number()] + be_bytes(items.len(), 4) + values_wire(
                items,
                items.len(),
            )
        },
        ValueView::Compound(entries) => entries_wire(entries, entries.len()) + seq![0u8],
        ValueView::ByteArray(bytes) => be_bytes(bytes.len(), 4) + bytes,
        ValueView::IntArray(numbers) => be_bytes(numbers.len(), 4) + ints_wire(
            numbers,
            numbers.len(),
        ),
        ValueView::LongArray(numbers) => be_bytes(numbers.len(), 4) + longs_wire(
            numbers,
            numbers.len(),
        ),
    }
}

/// Why the first `n` of `items` cannot be the values of one list, if
/// they cannot: one of them is of another kind than the first, which is
/// `InvalidData`, or cannot be written itself.
pub open spec fn values_error(items: Seq<ValueView>, n: nat) -> Option<PacketError>
    decreases items, n,
{
    if n == 0 || n > items.len() {
        None
    } else {
        match values_error(items, (n - 1) as nat) {
            Some(e) => Some(e),
            None => if items[n - 1].tag() != items[0].tag() {
                Some(PacketError::InvalidData)
            } else {
                value_error(items[n - 1])
            },
        }
    }
}

/// Why an entry cannot be written, if it cannot: its name is longer than
/// 65535 bytes, which is `StringTooLong`, or its value cannot be written.
pub open spec fn entry_error(entry: EntryView) -> Option<PacketError>
    decreases entry,
{
    if encode_utf8(entry.name).len() > MAX_NAME_BYTES {
        Some(PacketError::StringTooLong)
    } else {
        value_error(entry.value)
    }
}

/// Why the first of the first `n` of `entries` that cannot be written
/// cannot be.
pub open spec fn entries_error(entries: Seq<EntryView>, n: nat) -> Option<PacketError>
    decreases entries, n,
{
    if n == 0 || n > entries.len() {
        None
    } else {
        match entries_error(entries, (n - 1) as nat) {
            Some(e) => Some(e),
            None => entry_error(entries[n - 1]),
        }
    }
}

/// Why a value cannot be written, if it cannot: a text is longer than
/// 65535 bytes (`StringTooLong`), a list or an array has more members than
/// a 32-bit number counts (`BadLength`), the values of a list are not all
/// of one kind (`InvalidData`), or a value inside it cannot be written.
pub open spec fn value_error(v: ValueView) -> Option<PacketError>
    decreases v,
{
    match v {
        ValueView::String(text) => if encode_utf8(text).len() > MAX_NAME_BYTES {
            Some(PacketError::StringTooLong)
        } else {
            None
        },
        ValueView::List(items) => if items.len() > i32::MAX {
            Some(PacketError::BadLength)
        } else {
            values_error(items, items.len())
        },
        ValueView::Compound(entries) => entries_error(entries, entries.len()),
        ValueView::ByteArray(bytes) => if bytes.len() > i32::MAX {
            Some(PacketError::BadLength)
        } else {
            None
        },
        ValueView::IntArray(numbers) => if numbers.len() > i32::MAX {
            Some(PacketError::BadLength)
        } else {
            None
        },
        ValueView::LongArray(numbers) => if numbers.len() > i32::MAX {
            Some(PacketError::BadLength)
        } else {
            None
        },
        _ => None,
    }
}

proof fn lemma_values_prefix(items: Seq<ValueView>, k: nat, n: nat)
    requires
        k <= n <= items.len(),
    ensures
        values_wire(items, k).len() <= values_wire(items, n).len(),
        values_error(items, n) is None ==> values_error(items, k) is None,
    decreases n,
{
    if k < n {
        lemma_values_prefix(items, k, (n - 1) as nat);
    }
}

proof fn lemma_entries_prefix(entries: Seq<EntryView>, k: nat, n: nat)
    requires
        k <= n <= entries.len(),
    ensures
        entries_wire(entries, k).len() <= entries_wire(entries, n).len(),
        entries_error(entries, n) is None ==> entries_error(entries, k) is None,
    decreases n,
{
    if k < n {
        lemma_entries_prefix(entries, k, (n - 1) as nat);
    }
}

proof fn lemma_ints_len(numbers: Seq<i32>, n: nat)
    requires
        n <= numbers.len(),
    ensures
        ints_wire(numbers, n).len() == 4 * n,
    decreases n,
{
    if n > 0 {
        lemma_ints_len(numbers, (n - 1) as nat);
        lemma_be_bytes_len(
            twos(numbers[n - 1] as int, 4),
            4,
        );
    }
}

proof fn lemma_longs_len(numbers: Seq<i64>, n: nat)
    requires
        n <= numbers.len(),
    ensures
        longs_wire(numbers, n).len() == 8 * n,
    decreases n,
{
    if n > 0 {
        lemma_longs_len(numbers, (n - 1) as nat);
        lemma_be_bytes_len(
            twos(numbers[n - 1] as int, 8),
            8,
        );
    }
}

fn check_name(text: &String) -> (r: Result<(), PacketError>)
    ensures
        encode_utf8(text@).len() > MAX_NAME_BYTES ==> r == Err::<(), PacketError>(
            PacketError::StringTooLong,
        ),
        encode_utf8(text@).len() <= MAX_NAME_BYTES ==> r is Ok,
{
    if text.as_str().as_bytes().len() > MAX_NAME_BYTES {
        Err(PacketError::StringTooLong)
    } else {
        Ok(())
    }
}

fn size_name(text: &String) -> (n: usize)
    requires
        encode_utf8(text@).len() <= MAX_NAME_BYTES,
    ensures
        n == name_wire(text@).len(),
        n <= MAX_NAME_BYTES + 2,
{
    proof {
        lemma_be_bytes_len(encode_utf8(text@).len(), 2);
    }
    2 + text.as_str().as_bytes().len()
}

fn put_name(text: &String, buffer: &mut BytesMut)
    requires
        encode_utf8(text@).len() <= MAX_NAME_BYTES,
        contents(*old(buffer)).len() + name_wire(text@).len() <= isize::MAX,
    ensures
        contents(*final(buffer)) == contents(*old(buffer)) + name_wire(text@),
{
    let bytes = text.as_str().as_bytes();
    proof {
        lemma_be_bytes_len(encode_utf8(text@).len(), 2);
    }
    (bytes.len() as u16).put(buffer);
    put_slice(buffer, bytes);
    assert(contents(*buffer) =~= contents(*old(buffer)) + name_wire(text@));
}

/// Appends a count of members, as four bytes.
fn put_count(n: usize, buffer: &mut BytesMut)
    requires
        n <= i32::MAX,
        contents(*old(buffer)).len() + 4 <= isize::MAX,
    ensures
        contents(*final(buffer)) == contents(*old(buffer)) + be_bytes(n as nat, 4),
{
    proof {
        lemma_be_bytes_len(n as nat, 4);
    }
    (n as u32).put(buffer);
}

fn check_values(items: &Vec<Value>) -> (r: Result<(), PacketError>)
    ensures
        match values_error(value_views(items@), items@.len()) {
            Some(e) => r == Err::<(), PacketError>(e),
            None => r is Ok,
        },
    decreases items, 0nat,
{
    let ghost views = value_views(items@);
    let mut i: usize = 0;
    while i < items.len()
        invariant
            i <= items@.len(),
            views == value_views(items@),
            values_error(views, i as nat) is None,
        decreases items@.len() - i,
    {
        proof {
            broadcast use vstd::std_specs::vec::axiom_vec_index_decreases;

            assert(views[i as int] == items@[i as int]@);
            assert(views[0] == items@[0]@);
        }
        let same = items[i].id().id() == items[0].id().id();
        proof {
            lemma_tag_round_trip(items@[i as int]@.tag());
            lemma_tag_round_trip(items@[0]@.tag());
        }
        if !same {
            proof {
                lemma_error_stays(views, (i + 1) as nat, items@.len() as nat);
            }
            return Err(PacketError::InvalidData);
        }
        match items[i].check_value() {
            Err(e) => {
                proof {
                    lemma_error_stays(views, (i + 1) as nat, items@.len() as nat);
                }
                return Err(e);
            },
            Ok(()) => {},
        }
        i += 1;
    }
    Ok(())
}

/// An error among the first values is the error of all of them.
proof fn lemma_error_stays(items: Seq<ValueView>, k: nat, n: nat)
    requires
        k <= n <= items.len(),
        values_error(items, k) is Some,
    ensures
        values_error(items, n) == values_error(items, k),
    decreases n,
{
    if k < n {
        lemma_error_stays(items, k, (n - 1) as nat);
    }
}

/// An error among the first entries is the error of all of them.
proof fn lemma_entry_error_stays(entries: Seq<EntryView>, k: nat, n: nat)
    requires
        k <= n <= entries.len(),
        entries_error(entries, k) is Some,
    ensures
        entries_error(entries, n) == entries_error(entries, k),
    decreases n,
{
    if k < n {
        lemma_entry_error_stays(entries, k, (n - 1) as nat);
    }
}

fn check_entries(entries: &Vec<Entry>) -> (r: Result<(), PacketError>)
    ensures
        match entries_error(entry_views(entries@), entries@.len()) {
            Some(e) => r == Err::<(), PacketError>(e),
            None => r is Ok,
        },
    decreases entries, 0nat,
{
    let ghost views = entry_views(entries@);
    let mut i: usize = 0;
    while i < entries.len()
        invariant
            i <= entries@.len(),
            views == entry_views(entries@),
            entries_error(views, i as nat) is None,
        decreases entries@.len() - i,
    {
        proof {
            broadcast use vstd::std_specs::vec::axiom_vec_index_decreases;

            reveal_with_fuel(entries_error, 2);
            reveal_with_fuel(entries_wire, 2);
            assert(views[i as int] == entries@[i as int]@);
        }
        match check_name(&entries[i].name) {
            Err(e) => {
                proof {
                    lemma_entry_error_stays(views, (i + 1) as nat, entries@.len() as nat);
                }
                return Err(e);
            },
            Ok(()) => {},
        }
        match entries[i].value.check_value() {
            Err(e) => {
                proof {
                    lemma_entry_error_stays(views, (i + 1) as nat, entries@.len() as nat);
                }
                return Err(e);
            },
            Ok(()) => {},
        }
        i += 1;
    }
    Ok(())
}

fn size_values(items: &Vec<Value>) -> (n: usize)
    requires
        values_error(value_views(items@), items@.len()) is None,
    ensures
        n == clamped(values_wire(value_views(items@), items@.len()).len()),
    decreases items, 0nat,
{
    let ghost views = value_views(items@);
    let mut n: usize = 0;
    let mut i: usize = 0;
    while i < items.len()
        invariant
            i <= items@.len(),
            views == value_views(items@),
            values_error(views, items@.len()) is None,
            n == clamped(values_wire(views, i as nat).len()),
        decreases items@.len() - i,
    {
        proof {
            broadcast use vstd::std_specs::vec::axiom_vec_index_decreases;

            assert(views[i as int] == items@[i as int]@);
            lemma_values_prefix(views, (i + 1) as nat, items@.len() as nat);
        }
        n = saturating_sum(n, items[i].size_value());
        i += 1;
    }
    n
}

fn size_entries(entries: &Vec<Entry>) -> (n: usize)
    requires
        entries_error(entry_views(entries@), entries@.len()) is None,
    ensures
        n == clamped(entries_wire(entry_views(entries@), entries@.len()).len()),
    decreases entries, 0nat,
{
    let ghost views = entry_views(entries@);
    let mut n: usize = 0;
    let mut i: usize = 0;
    while i < entries.len()
        invariant
            i <= entries@.len(),
            views == entry_views(entries@),
            entries_error(views, entries@.len()) is None,
            n == clamped(entries_wire(views, i as nat).len()),
        decreases entries@.len() - i,
    {
        proof {
            broadcast use vstd::std_specs::vec::axiom_vec_index_decreases;

            reveal_with_fuel(entries_error, 2);
            reveal_with_fuel(entries_wire, 2);
            assert(views[i as int] == entries@[i as int]@);
            lemma_entries_prefix(views, (i + 1) as nat, entries@.len() as nat);
        }
        let entry: usize = saturating_sum(
            1 + size_name(&entries[i].name),
            entries[i].value.size_value(),
        );
        n = saturating_sum(n, entry);
        i += 1;
    }
    n
}

fn put_values(items: &Vec<Value>, buffer: &mut BytesMut)
    requires
        values_error(value_views(items@), items@.len()) is None,
        contents(*old(buffer)).len() + values_wire(value_views(items@), items@.len()).len()
            <= isize::MAX,
    ensures
        contents(*final(buffer)) == contents(*old(buffer)) + values_wire(
            value_views(items@),
            items@.len(),
        ),
    decreases items, 0nat,
{
    let ghost views = value_views(items@);
    let ghost start = contents(*buffer);
    let mut i: usize = 0;
    assert(contents(*buffer) =~= start + values_wire(views, 0));
    while i < items.len()
        invariant
            i <= items@.len(),
            views == value_views(items@),
            values_error(views, items@.len()) is None,
            start.len() + values_wire(views, items@.len()).len() <= isize::MAX,
            contents(*buffer) == start + values_wire(views, i as nat),
        decreases items@.len() - i,
    {
        proof {
            broadcast use vstd::std_specs::vec::axiom_vec_index_decreases;

            assert(views[i as int] == items@[i as int]@);
            lemma_values_prefix(views, (i + 1) as nat, items@.len() as nat);
        }
        items[i].put_value(buffer);
        assert(contents(*buffer) =~= start + values_wire(views, (i + 1) as nat));
        i += 1;
    }
}

fn put_entries(entries: &Vec<Entry>, buffer: &mut BytesMut)
    requires
        entries_error(entry_views(entries@), entries@.len()) is None,
        contents(*old(buffer)).len() + entries_wire(entry_views(entries@), entries@.len()).len()
            <= isize::MAX,
    ensures
        contents(*final(buffer)) == contents(*old(buffer)) + entries_wire(
            entry_views(entries@),
            entries@.len(),
        ),
    decreases entries, 0nat,
{
    let ghost views = entry_views(entries@);
    let ghost start = contents(*buffer);
    let mut i: usize = 0;
    assert(contents(*buffer) =~= start + entries_wire(views, 0));
    while i < entries.len()
        invariant
            i <= entries@.len(),
            views == entry_views(entries@),
            entries_error(views, entries@.len()) is None,
            start.len() + entries_wire(views, entries@.len()).len() <= isize::MAX,
            contents(*buffer) == start + entries_wire(views, i as nat),
        decreases entries@.len() - i,
    {
        proof {
            broadcast use vstd::std_specs::vec::axiom_vec_index_decreases;

            reveal_with_fuel(entries_error, 2);
            reveal_with_fuel(entries_wire, 2);
            assert(views[i as int] == entries@[i as int]@);
            lemma_entries_prefix(views, (i + 1) as nat, entries@.len() as nat);
        }
        let ghost before = contents(*buffer);
        put_u8(buffer, entries[i].value.id().id());
        put_name(&entries[i].name, buffer);
        entries[i].value.put_value(buffer);
        assert(contents(*buffer) =~= before + entry_wire(views[i as int]));
        assert(contents(*buffer) =~= start + entries_wire(views, (i + 1) as nat));
        i += 1;
    }
}

fn put_ints(numbers: &Vec<i32>, buffer: &mut BytesMut)
    requires
        contents(*old(buffer)).len() + 4 * numbers@.len() <= isize::MAX,
    ensures
        contents(*final(buffer)) == contents(*old(buffer)) + ints_wire(numbers@, numbers@.len()),
{
    let ghost start = contents(*buffer);
    let mut i: usize = 0;
    assert(contents(*buffer) =~= start + ints_wire(numbers@, 0));
    while i < numbers.len()
        invariant
            i <= numbers@.len(),
            start.len() + 4 * numbers@.len() <= isize::MAX,
            contents(*buffer) == start + ints_wire(numbers@, i as nat),
        decreases numbers@.len() - i,
    {
        proof {
            lemma_ints_len(numbers@, i as nat);
            lemma_ints_len(numbers@, (i + 1) as nat);
        }
        numbers[i].put(buffer);
        assert(contents(*buffer) =~= start + ints_wire(numbers@, (i + 1) as nat));
        i += 1;
    }
}

fn put_longs(numbers: &Vec<i64>, buffer: &mut BytesMut)
    requires
        contents(*old(buffer)).len() + 8 * numbers@.len() <= isize::MAX,
    ensures
        contents(*final(buffer)) == contents(*old(buffer)) + longs_wire(numbers@, numbers@.len()),
{
    let ghost start = contents(*buffer);
    let mut i: usize = 0;
    assert(contents(*buffer) =~= start + longs_wire(numbers@, 0));
    while i < numbers.len()
        invariant
            i <= numbers@.len(),
            start.len() + 8 * numbers@.len() <= isize::MAX,
            contents(*buffer) == start + longs_wire(numbers@, i as nat),
        decreases numbers@.len() - i,
    {
        proof {
            lemma_longs_len(numbers@, i as nat);
            lemma_longs_len(numbers@, (i + 1) as nat);
        }
        numbers[i].put(buffer);
        assert(contents(*buffer) =~= start + longs_wire(numbers@, (i + 1) as nat));
        i += 1;
    }
}

/// The number of bytes of `n` members of `width` bytes each behind their
/// count; the largest `usize` where they are more than that.
fn size_array(n: usize, width: usize) -> (size: usize)
    requires
        n <= i32::MAX,
        width <= 8,
    ensures
        size == clamped((4 + width * n) as nat),
{
    assert(width * n <= 8 * 0x7fff_ffff) by (nonlinear_arith)
        requires
            width <= 8,
            n <= 0x7fff_ffff,
    ;
    let bytes: u64 = 4 + width as u64 * n as u64;
    if bytes > usize::MAX as u64 {
        usize::MAX
    } else {
        bytes as usize
    }
}

impl Value {
    /// Says whether the value can be written, and why not if it cannot.
    pub fn check_value(&self) -> (r: Result<(), PacketError>)
        ensures
            match value_error(self@) {
                Some(e) => r == Err::<(), PacketError>(e),
                None => r is Ok,
            },
        decreases self, 1nat,
    {
        match self {
            Value::String(text) => check_name(text),
            Value::List(items) => {
                assert(self@->List_0 =~= value_views(items@));
                if items.len() > i32::MAX as usize {
                    Err(PacketError::BadLength)
                } else {
                    check_values(items)
                }
            },
            Value::Compound(entries) => {
                assert(self@->Compound_0 =~= entry_views(entries@));
                check_entries(entries)
            },
            Value::ByteArray(bytes) => if bytes.len() > i32::MAX as usize {
                Err(PacketError::BadLength)
            } else {
                Ok(())
            },
            Value::IntArray(numbers) => if numbers.len() > i32::MAX as usize {
                Err(PacketError::BadLength)
            } else {
                Ok(())
            },
            Value::LongArray(numbers) => if numbers.len() > i32::MAX as usize {
                Err(PacketError::BadLength)
            } else {
                Ok(())
            },
            _ => Ok(()),
        }
    }

    /// The number of bytes the value takes; the largest `usize` where it
    /// takes more than that.
    pub fn size_value(&self) -> (n: usize)
        requires
            value_error(self@) is None,
        ensures
            n == clamped(value_wire(self@).len()),
        decreases self, 1nat,
    {
        match self {
            Value::Byte(x) => x.size(),
            Value::Short(x) => x.size(),
            Value::Int(x) => x.size(),
            Value::Long(x) => x.size(),
            Value::Float(x) => x.size(),
            Value::Double(x) => x.size(),
            Value::String(text) => size_name(text),
            Value::List(items) => {
                proof {
                    assert(self@->List_0 =~= value_views(items@));
                    lemma_be_bytes_len(items@.len() as nat, 4);
                    lemma_be_bytes_len(0, 4);
                }
                saturating_sum(5, size_values(items))
            },
            Value::Compound(entries) => {
                assert(self@->Compound_0 =~= entry_views(entries@));
                saturating_sum(size_entries(entries), 1)
            },
            Value::ByteArray(bytes) => {
                proof {
                    lemma_be_bytes_len(bytes@.len() as nat, 4);
                }
                size_array(bytes.len(), 1)
            },
            Value::IntArray(numbers) => {
                proof {
                    lemma_be_bytes_len(numbers@.len() as nat, 4);
                    lemma_ints_len(numbers@, numbers@.len() as nat);
                }
                size_array(numbers.len(), 4)
            },
            Value::LongArray(numbers) => {
                proof {
                    lemma_be_bytes_len(numbers@.len() as nat, 4);
                    lemma_longs_len(numbers@, numbers@.len() as nat);
                }
                size_array(numbers.len(), 8)
            },
        }
    }

    /// Appends the bytes of a value that can be written to a buffer that
    /// can take them.
    pub fn put_value(&self, buffer: &mut BytesMut)
        requires
            value_error(self@) is None,
            contents(*old(buffer)).len() + value_wire(self@).len() <= isize::MAX,
        ensures
            contents(*final(buffer)) == contents(*old(buffer)) + value_wire(self@),
        decreases self, 1nat,
    {
        match self {
            Value::Byte(x) => x.put(buffer),
            Value::Short(x) => x.put(buffer),
            Value::Int(x) => x.put(buffer),
            Value::Long(x) => x.put(buffer),
            Value::Float(x) => x.put(buffer),
            Value::Double(x) => x.put(buffer),
            Value::String(text) => put_name(text, buffer),
            Value::List(items) => {
                proof {
                    assert(self@->List_0 =~= value_views(items@));
                    lemma_be_bytes_len(items@.len() as nat, 4);
                    lemma_be_bytes_len(0, 4);
                }
                if items.len() == 0 {
                    put_u8(buffer, 0);
                    put_count(0, buffer);
                    assert(contents(*buffer) =~= contents(*old(buffer)) + value_wire(self@));
                } else {
                    assert(value_views(items@)[0] == items@[0]@);
                    put_u8(buffer, items[0].id().id());
                    put_count(items.len(), buffer);
                    put_values(items, buffer);
                    assert(contents(*buffer) =~= contents(*old(buffer)) + value_wire(self@));
                }
            },
            Value::Compound(entries) => {
                assert(self@->Compound_0 =~= entry_views(entries@));
                put_entries(entries, buffer);
                put_u8(buffer, 0);
                assert(contents(*buffer) =~= contents(*old(buffer)) + value_wire(self@));
            },
            Value::ByteArray(bytes) => {
                proof {
                    lemma_be_bytes_len(bytes@.len() as nat, 4);
                }
                put_count(bytes.len(), buffer);
                put_slice(buffer, bytes.as_slice());
                assert(contents(*buffer) =~= contents(*old(buffer)) + value_wire(self@));
            },
            Value::IntArray(numbers) => {
                proof {
                    lemma_be_bytes_len(numbers@.len() as nat, 4);
                    lemma_ints_len(numbers@, numbers@.len() as nat);
                }
                put_count(numbers.len(), buffer);
                put_ints(numbers, buffer);
                assert(contents(*buffer) =~= contents(*old(buffer)) + value_wire(self@));
            },
            Value::LongArray(numbers) => {
                proof {
                    lemma_be_bytes_len(numbers@.len() as nat, 4);
                    lemma_longs_len(numbers@, numbers@.len() as nat);
                }
                put_count(numbers.len(), buffer);
                put_longs(numbers, buffer);
                assert(contents(*buffer) =~= contents(*old(buffer)) + value_wire(self@));
            },
        }
    }

    /// Appends the value's bytes to `buffer`, all of them or none.
    pub fn write_unnamed(&self, buffer: &mut BytesMut) -> (r: Result<(), PacketError>)
        ensures
            match value_error(self@) {
                Some(e) => r == Err::<(), PacketError>(e),
                None => if contents(*old(buffer)).len() + value_wire(self@).len() <= isize::MAX {
                    r is Ok
                } else {
                    r == Err::<(), PacketError>(PacketError::Incomplete)
                },
            },
            r is Ok ==> contents(*final(buffer)) == contents(*old(buffer)) + value_wire(self@),
            r is Err ==> contents(*final(buffer)) == contents(*old(buffer)),
    {
        self.write(buffer)
    }
}

impl PacketWrite for Value {
    open spec fn wire(&self) -> Seq<u8> {
        value_wire(self@)
    }

    open spec fn wire_error(&self) -> Option<PacketError> {
        value_error(self@)
    }

    fn check(&self) -> (r: Result<(), PacketError>) {
        self.check_value()
    }

    fn size(&self) -> (n: usize) {
        self.size_value()
    }

    fn put(&self, buffer: &mut BytesMut) {
        self.put_value(buffer)
    }
}

} // verus!
