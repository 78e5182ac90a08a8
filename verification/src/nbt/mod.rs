//! The named binary tag format: values, the kinds of tag that tell them
//! apart, and their bytes.
//!
//! A value travels without its name and without its kind; the reader is
//! told the kind. Numbers are big-endian. A floating-point number is held
//! as its bits. A compound holds its entries in the order they were put
//! in, no two under one name.

pub mod read;
pub mod write;

use vstd::prelude::*;

verus! {


/// The kind of a tag.
#[derive(Debug, Clone, Copy, PartialEq, Eq, Structural, PartialOrd, Ord)]
pub enum TagId {
    End,
    Byte,
    Short,
    Int,
    Long,
    Float,
    Double,
    ByteArray,
    String,
    List,
    Compound,
    IntArray,
    LongArray,
}

/// The kind of tag that the byte `value` stands for. A byte that stands
/// for none is the end tag.
pub open spec fn tag_of(value: u8) -> TagId {
    if value == 1 {
        TagId::Byte
    } else if value == 2 {
        TagId::Short
    } else if value == 3 {
        TagId::Int
    } else if value == 4 {
        TagId::Long
    } else if value == 5 {
        TagId::Float
    } else if value == 6 {
        TagId::Double
    } else if value == 7 {
        TagId::ByteArray
    } else if value == 8 {
        TagId::String
    } else if value == 9 {
        TagId::List
    } else if value == 10 {
        TagId::Compound
    } else if value == 11 {
        TagId::IntArray
    } else if value == 12 {
        TagId::LongArray
    } else {
        TagId::End
    }
}

impl TagId {
    /// The byte that stands for the kind of tag.
    pub open spec fn number(self) -> u8 {
        match self {
            TagId::End => 0,
            TagId::Byte => 1,
            TagId::Short => 2,
            TagId::Int => 3,
            TagId::Long => 4,
            TagId::Float => 5,
            TagId::Double => 6,
            TagId::ByteArray => 7,
            TagId::String => 8,
            TagId::List => 9,
            TagId::Compound => 10,
            TagId::IntArray => 11,
            TagId::LongArray => 12,
        }
    }

    /// The byte that stands for the kind of tag.
    pub fn id(&self) -> (id: u8)
        ensures
            id == self.number(),
    {
        match self {
            TagId::End => 0,
            TagId::Byte => 1,
            TagId::Short => 2,
            TagId::Int => 3,
            TagId::Long => 4,
            TagId::Float => 5,
            TagId::Double => 6,
            TagId::ByteArray => 7,
            TagId::String => 8,
            TagId::List => 9,
            TagId::Compound => 10,
            TagId::IntArray => 11,
            TagId::LongArray => 12,
        }
    }
}

impl From<u8> for TagId {
    fn from(value: u8) -> (tag: TagId) {
        match value {
            1 => TagId::Byte,
            2 => TagId::Short,
            3 => TagId::Int,
            4 => TagId::Long,
            5 => TagId::Float,
            6 => TagId::Double,
            7 => TagId::ByteArray,
            8 => TagId::String,
            9 => TagId::List,
            10 => TagId::Compound,
            11 => TagId::IntArray,
            12 => TagId::LongArray,
            _ => TagId::End,
        }
    }
}

impl vstd::std_specs::convert::FromSpecImpl<u8> for TagId {
    open spec fn obeys_from_spec() -> bool {
        true
    }

    open spec fn from_spec(value: u8) -> TagId {
        tag_of(value)
    }
}

/// The byte of a kind of tag stands for that kind.
pub proof fn lemma_tag_round_trip(tag: TagId)
    ensures
        tag_of(tag.number()) == tag,
{
}

/// A value.
#[derive(Debug)]
pub enum Value {
    Byte(i8),
    Short(i16),
    Int(i32),
    Long(i64),
    /// The bits of a single-precision number.
    Float(u32),
    /// The bits of a double-precision number.
    Double(u64),
    String(String),
    List(Vec<Value>),
    Compound(Vec<Entry>),
    ByteArray(Vec<u8>),
    IntArray(Vec<i32>),
    LongArray(Vec<i64>),
}

/// A value of a compound, under its name.
#[derive(Debug)]
pub struct Entry {
    pub name: String,
    pub value: Value,
}

/// A value as contracts see it.
pub enum ValueView {
    Byte(i8),
    Short(i16),
    Int(i32),
    Long(i64),
    Float(u32),
    Double(u64),
    String(Seq<char>),
    List(Seq<ValueView>),
    Compound(Seq<EntryView>),
    ByteArray(Seq<u8>),
    IntArray(Seq<i32>),
    LongArray(Seq<i64>),
}

/// An entry of a compound as contracts see it.
pub struct EntryView {
    pub name: Seq<char>,
    pub value: ValueView,
}

/// A value as contracts see it: its texts as sequences of characters, its
/// lists and arrays as sequences.
pub open spec fn value_view(v: Value) -> ValueView
    decreases v,
{
    match v {
        Value::Byte(x) => ValueView::Byte(x),
        Value::Short(x) => ValueView::Short(x),
        Value::Int(x) => ValueView::Int(x),
        Value::Long(x) => ValueView::Long(x),
        Value::Float(x) => ValueView::Float(x),
        Value::Double(x) => ValueView::Double(x),
        Value::String(s) => ValueView::String(s@),
        Value::List(items) => ValueView::List(
            Seq::new(
                items@.len(),
                |i: int|
                    if 0 <= i < items@.len() {
                        value_view(items@[i])
                    } else {
                        ValueView::Byte(0)
                    },
            ),
        ),
        Value::Compound(entries) => ValueView::Compound(
            Seq::new(
                entries@.len(),
                |i: int|
                    if 0 <= i < entries@.len() {
                        EntryView { name: entries@[i].name@, value: value_view(entries@[i].value) }
                    } else {
                        EntryView { name: Seq::empty(), value: ValueView::Byte(0) }
                    },
            ),
        ),
        Value::ByteArray(b) => ValueView::ByteArray(b@),
        Value::IntArray(b) => ValueView::IntArray(b@),
        Value::LongArray(b) => ValueView::LongArray(b@),
    }
}

impl View for Value {
    type V = ValueView;

    open spec fn view(&self) -> ValueView {
        value_view(*self)
    }
}

impl View for Entry {
    type V = EntryView;

    open spec fn view(&self) -> EntryView {
        EntryView { name: self.name@, value: self.value@ }
    }
}

/// The views of `values`, in order.
pub open spec fn value_views(values: Seq<Value>) -> Seq<ValueView> {
    Seq::new(values.len(), |i: int| values[i]@)
}

/// The views of `entries`, in order.
pub open spec fn entry_views(entries: Seq<Entry>) -> Seq<EntryView> {
    Seq::new(entries.len(), |i: int| entries[i]@)
}

impl ValueView {
    /// The kind of tag the value is.
    pub open spec fn tag(self) -> TagId {
        match self {
            ValueView::Byte(_) => TagId::Byte,
            ValueView::Short(_) => TagId::Short,
            ValueView::Int(_) => TagId::Int,
            ValueView::Long(_) => TagId::Long,
            ValueView::Float(_) => TagId::Float,
            ValueView::Double(_) => TagId::Double,
            ValueView::String(_) => TagId::String,
            ValueView::List(_) => TagId::List,
            ValueView::Compound(_) => TagId::Compound,
            ValueView::ByteArray(_) => TagId::ByteArray,
            ValueView::IntArray(_) => TagId::IntArray,
            ValueView::LongArray(_) => TagId::LongArray,
        }
    }
}

/// The first place from `from` on where `entries` has an entry under
/// `name`; the number of entries where it has none.
pub open spec fn entry_index(entries: Seq<EntryView>, name: Seq<char>, from: int) -> int
    decreases entries.len() - from,
{
    if from < 0 || from >= entries.len() {
        entries.len() as int
    } else if entries[from].name == name {
        from
    } else {
        entry_index(entries, name, from + 1)
    }
}

/// `entries` with `value` under `name`: in place of the entry that was
/// under the name, or behind all entries if none was.
pub open spec fn upsert(entries: Seq<EntryView>, name: Seq<char>, value: ValueView) -> Seq<
    EntryView,
> {
    let at = entry_index(entries, name, 0);
    if at < entries.len() {
        entries.update(at, EntryView { name, value })
    } else {
        entries.push(EntryView { name, value })
    }
}

impl Value {
    /// The kind of tag the value is.
    pub fn id(&self) -> (tag: TagId)
        ensures
            tag == self@.tag(),
    {
        match self {
            Value::Byte(_) => TagId::Byte,
            Value::Short(_) => TagId::Short,
            Value::Int(_) => TagId::Int,
            Value::Long(_) => TagId::Long,
            Value::Float(_) => TagId::Float,
            Value::Double(_) => TagId::Double,
            Value::String(_) => TagId::String,
            Value::List(_) => TagId::List,
            Value::Compound(_) => TagId::Compound,
            Value::ByteArray(_) => TagId::ByteArray,
            Value::IntArray(_) => TagId::IntArray,
            Value::LongArray(_) => TagId::LongArray,
        }
    }

    /// A compound without entries.
    pub fn new_compound() -> (compound: Value)
        ensures
            compound@ == ValueView::Compound(Seq::empty()),
    {
        let compound = Value::Compound(Vec::new());
        assert(compound@->Compound_0 =~= Seq::empty());
        compound
    }
}

} // verus!
