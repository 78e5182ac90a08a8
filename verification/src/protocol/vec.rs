//! Optional values and lists on the wire.
//!
//! An optional value is a presence byte and, if present, the value. A
//! list is the number of its items as a variable-length integer and then
//! the items, one after the other.

use crate::buffer::{contents, put_u8};
use crate::protocol::serial::{clamped, saturating_sum, PacketError, PacketRead, PacketWrite};
use crate::protocol::var_int::VarInt;
use bytes::BytesMut;
use vstd::prelude::*;

verus! {

impl<T: PacketWrite> PacketWrite for Option<T> {
    open spec fn wire(&self) -> Seq<u8> {
        match self {
            Some(value) => seq![1u8] + value.wire(),
            None => seq![0u8],
        }
    }

    open spec fn wire_error(&self) -> Option<PacketError> {
        match self {
            Some(value) => value.wire_error(),
            None => None,
        }
    }

    fn check(&self) -> (r: Result<(), PacketError>) {
        match self {
            Some(value) => value.check(),
            None => Ok(()),
        }
    }

    fn size(&self) -> (n: usize) {
        match self {
            Some(value) => saturating_sum(1, value.size()),
            None => 1,
        }
    }

    fn put(&self, buffer: &mut BytesMut) {
        match self {
            Some(value) => {
                put_u8(buffer, 1);
                value.put(buffer);
                assert(contents(*buffer) =~= contents(*old(buffer)) + self.wire());
            },
            None => {
                put_u8(buffer, 0);
                assert(contents(*buffer) =~= contents(*old(buffer)) + self.wire());
            },
        }
    }
}

impl<T: PacketRead> PacketRead for Option<T> {
    open spec fn parse(bytes: Seq<u8>) -> Result<(Option<<T as DeepView>::V>, nat), PacketError> {
        match bool::parse(bytes) {
            Err(e) => Err(e),
            Ok((present, used)) => if present {
                match T::parse(bytes.skip(used as int)) {
                    Err(e) => Err(e),
                    Ok((value, more)) => Ok((Some(value), used + more)),
                }
            } else {
                Ok((None, used))
            },
        }
    }

    fn decode(data: &[u8], start: usize) -> (r: Result<(Option<T>, usize), PacketError>) {
        let ghost bytes = data@.skip(start as int);
        match bool::decode(data, start) {
            Err(e) => Err(e),
            Ok((present, next)) => {
                if present {
                    assert(bytes.skip(next - start) =~= data@.skip(next as int));
                    match T::decode(data, next) {
                        Err(e) => Err(e),
                        Ok((value, end)) => Ok((Some(value), end)),
                    }
                } else {
                    Ok((None, next))
                }
            },
        }
    }
}

/// The bytes of `items` on the wire, one after the other.
pub open spec fn wire_items<T: PacketWrite>(items: Seq<T>) -> Seq<u8>
    decreases items.len(),
{
    if items.len() == 0 {
        Seq::empty()
    } else {
        wire_items(items.drop_last()) + items.last().wire()
    }
}

/// Why the first of `items` that cannot be written cannot be.
pub open spec fn items_error<T: PacketWrite>(items: Seq<T>) -> Option<PacketError>
    decreases items.len(),
{
    if items.len() == 0 {
        None
    } else {
        match items_error(items.drop_last()) {
            Some(e) => Some(e),
            None => items.last().wire_error(),
        }
    }
}

/// What decoding `n` values, one after the other, from the head of `bytes`
/// gives.
pub open spec fn parse_items<T: PacketRead>(bytes: Seq<u8>, n: nat) -> Result<
    (Seq<<T as DeepView>::V>, nat),
    PacketError,
>
    decreases n,
{
    if n == 0 {
        Ok((Seq::empty(), 0))
    } else {
        match T::parse(bytes) {
            Err(e) => Err(e),
            Ok((first, used)) => match parse_items::<T>(bytes.skip(used as int), (n - 1) as nat) {
                Err(e) => Err(e),
                Ok((rest, more)) => Ok((seq![first] + rest, used + more)),
            },
        }
    }
}

proof fn lemma_items_prefix<T: PacketWrite>(items: Seq<T>, k: int)
    requires
        0 <= k <= items.len(),
    ensures
        wire_items(items.take(k)).len() <= wire_items(items).len(),
        items_error(items) is None ==> items_error(items.take(k)) is None,
        items_error(items.take(k)) is Some ==> items_error(items) == items_error(items.take(k)),
    decreases items.len(),
{
    if k < items.len() {
        assert(items.drop_last().take(k) =~= items.take(k));
        lemma_items_prefix(items.drop_last(), k);
    } else {
        assert(items.take(k) =~= items);
    }
}

impl<T: PacketWrite> PacketWrite for Vec<T> {
    open spec fn wire(&self) -> Seq<u8> {
        VarInt(self@.len() as i32).wire() + wire_items(self@)
    }

    open spec fn wire_error(&self) -> Option<PacketError> {
        if self@.len() > i32::MAX {
            Some(PacketError::BadLength)
        } else {
            items_error(self@)
        }
    }

    #[verifier::loop_isolation(false)]
    fn check(&self) -> (r: Result<(), PacketError>) {
        if self.len() > i32::MAX as usize {
            return Err(PacketError::BadLength);
        }
        let mut i: usize = 0;
        while i < self.len()
            invariant
                i <= self@.len(),
                items_error(self@.take(i as int)) is None,
            decreases self@.len() - i,
        {
            proof {
                assert(self@.take(i + 1).drop_last() =~= self@.take(i as int));
                lemma_items_prefix(self@, i + 1);
            }
            match self[i].check() {
                Err(e) => {
                    return Err(e);
                },
                Ok(()) => {},
            }
            i += 1;
        }
        proof {
            assert(self@.take(i as int) =~= self@);
        }
        Ok(())
    }

    #[verifier::loop_isolation(false)]
    fn size(&self) -> (n: usize) {
        let mut n: usize = VarInt(self.len() as i32).wire_len();
        let mut i: usize = 0;
        assert(wire_items(self@.take(0)) =~= Seq::<u8>::empty());
        while i < self.len()
            invariant
                i <= self@.len(),
                n == clamped(
                    VarInt(self@.len() as i32).wire().len() + wire_items(self@.take(i as int)).len(),
                ),
            decreases self@.len() - i,
        {
            proof {
                assert(self@.take(i + 1).drop_last() =~= self@.take(i as int));
                lemma_items_prefix(self@, i + 1);
            }
            n = saturating_sum(n, self[i].size());
            i += 1;
        }
        proof {
            assert(self@.take(i as int) =~= self@);
        }
        n
    }

    #[verifier::loop_isolation(false)]
    fn put(&self, buffer: &mut BytesMut) {
        let count = VarInt(self.len() as i32);
        count.put(buffer);
        let ghost start = contents(*buffer);
        let mut i: usize = 0;
        assert(wire_items(self@.take(0)) =~= Seq::<u8>::empty());
        while i < self.len()
            invariant
                i <= self@.len(),
                contents(*buffer) == start + wire_items(self@.take(i as int)),
            decreases self@.len() - i,
        {
            proof {
                assert(self@.take(i + 1).drop_last() =~= self@.take(i as int));
                lemma_items_prefix(self@, i + 1);
            }
            self[i].put(buffer);
            assert(contents(*buffer) =~= start + wire_items(self@.take(i + 1)));
            i += 1;
        }
        proof {
            assert(self@.take(i as int) =~= self@);
            assert(contents(*buffer) =~= contents(*old(buffer)) + self.wire());
        }
    }
}

impl<T: PacketRead> PacketRead for Vec<T> {
    open spec fn parse(bytes: Seq<u8>) -> Result<(Seq<<T as DeepView>::V>, nat), PacketError> {
        match VarInt::parse(bytes) {
            Err(e) => Err(e),
            Ok((count, used)) => if count.0 < 0 {
                Err(PacketError::BadLength)
            } else {
                match parse_items::<T>(bytes.skip(used as int), count.0 as nat) {
                    Err(e) => Err(e),
                    Ok((items, more)) => Ok((items, used + more)),
                }
            },
        }
    }

    #[verifier::loop_isolation(false)]
    fn decode(data: &[u8], start: usize) -> (r: Result<(Vec<T>, usize), PacketError>) {
        let ghost bytes = data@.skip(start as int);
        match VarInt::decode(data, start) {
            Err(e) => Err(e),
            Ok((count, first)) => {
                if count.0 < 0 {
                    return Err(PacketError::BadLength);
                }
                let n: usize = count.0 as usize;
                let ghost whole = parse_items::<T>(data@.skip(first as int), n as nat);
                assert(bytes.skip(first - start) =~= data@.skip(first as int));
                let mut items: Vec<T> = Vec::new();
                let mut at: usize = first;
                let mut i: usize = 0;
                assert(items.deep_view() =~= Seq::empty());
                while i < n
                    invariant
                        i <= n,
                        first <= at <= data@.len(),
                        whole == parse_items::<T>(data@.skip(first as int), n as nat),
                        whole == match parse_items::<T>(data@.skip(at as int), (n - i) as nat) {
                            Err(e) => Err(e),
                            Ok((rest, more)) => Ok(
                                (items.deep_view() + rest, (at - first + more) as nat),
                            ),
                        },
                    decreases n - i,
                {
                    let ghost done = items.deep_view();
                    match T::decode(data, at) {
                        Err(e) => {
                            return Err(e);
                        },
                        Ok((item, next)) => {
                            proof {
                                let v = item.deep_view();
                                assert(data@.skip(at as int).skip(next - at) =~= data@.skip(
                                    next as int,
                                ));
                                match parse_items::<T>(data@.skip(next as int), (n - i - 1) as nat) {
                                    Err(e) => {},
                                    Ok((rest, more)) => {
                                        assert(done + (seq![v] + rest) =~= done.push(v) + rest);
                                    },
                                }
                            }
                            items.push(item);
                            proof {
                                assert(items.deep_view() =~= done.push(item.deep_view()));
                            }
                            at = next;
                        },
                    }
                    i += 1;
                }
                proof {
                    assert(items.deep_view() + Seq::empty() =~= items.deep_view());
                }
                Ok((items, at))
            },
        }
    }
}

/// Decoding a written optional value gives it back, if decoding the value
/// inside does.
pub proof fn lemma_option_round_trip<T: PacketRead + PacketWrite>(value: Option<T>, rest: Seq<u8>)
    requires
        value matches Some(inner) ==> T::parse(inner.wire() + rest) == Ok::<
            (<T as DeepView>::V, nat),
            PacketError,
        >((inner.deep_view(), inner.wire().len())),
    ensures
        Option::<T>::parse(value.wire() + rest) == Ok::<(Option<<T as DeepView>::V>, nat), PacketError>(
            (value.deep_view(), value.wire().len()),
        ),
{
    match value {
        Some(inner) => {
            let bytes = value.wire() + rest;
            assert(bytes[0] == 1u8);
            assert(bytes.skip(1) =~= inner.wire() + rest);
        },
        None => {
            let bytes = value.wire() + rest;
            assert(bytes[0] == 0u8);
        },
    }
}

/// The bytes of items are the bytes of the first and the bytes of the
/// others.
pub proof fn lemma_wire_items_front<T: PacketWrite>(items: Seq<T>)
    requires
        items.len() > 0,
    ensures
        wire_items(items) == items[0].wire() + wire_items(items.skip(1)),
    decreases items.len(),
{
    if items.len() == 1 {
        assert(items.drop_last() =~= Seq::<T>::empty());
        assert(items.skip(1) =~= Seq::<T>::empty());
        assert(wire_items(items) =~= items[0].wire() + wire_items(items.skip(1)));
    } else {
        lemma_wire_items_front(items.drop_last());
        assert(items.skip(1).drop_last() =~= items.drop_last().skip(1));
        assert(wire_items(items) =~= items[0].wire() + wire_items(items.skip(1)));
    }
}

/// Whether decoding what was written of `item`, whatever follows it, gives
/// the item back and takes exactly its bytes.
pub open spec fn round_trips<T: PacketRead + PacketWrite>(item: T) -> bool {
    forall|rest: Seq<u8>| #[trigger]
        T::parse(item.wire() + rest) == Ok::<(<T as DeepView>::V, nat), PacketError>(
            (item.deep_view(), item.wire().len()),
        )
}

/// Decoding written items gives them back, if decoding each of them does.
pub proof fn lemma_items_round_trip<T: PacketRead + PacketWrite>(items: Seq<T>, rest: Seq<u8>)
    requires
        forall|i: int| 0 <= i < items.len() ==> round_trips(#[trigger] items[i]),
    ensures
        parse_items::<T>(wire_items(items) + rest, items.len()) == Ok::<
            (Seq<<T as DeepView>::V>, nat),
            PacketError,
        >((Seq::new(items.len(), |i: int| items[i].deep_view()), wire_items(items).len())),
    decreases items.len(),
{
    let views = Seq::new(items.len(), |i: int| items[i].deep_view());
    if items.len() == 0 {
        assert(views =~= Seq::empty());
    } else {
        let first = items[0];
        let others = items.skip(1);
        lemma_wire_items_front(items);
        let bytes = wire_items(items) + rest;
        let tail = wire_items(others) + rest;
        assert(bytes =~= first.wire() + tail);
        assert(round_trips(first));
        assert(T::parse(first.wire() + tail) == Ok::<(<T as DeepView>::V, nat), PacketError>(
            (first.deep_view(), first.wire().len()),
        ));
        assert(bytes.skip(first.wire().len() as int) =~= tail);
        assert forall|i: int| 0 <= i < others.len() implies round_trips(#[trigger] others[i]) by {
            assert(others[i] == items[i + 1]);
        }
        lemma_items_round_trip(others, rest);
        let other_views = Seq::new(others.len(), |i: int| others[i].deep_view());
        assert(seq![first.deep_view()] + other_views =~= views);
    }
}

/// Decoding a written list gives it back, if decoding each of its items
/// does.
pub proof fn lemma_vec_round_trip<T: PacketRead + PacketWrite>(list: Vec<T>, rest: Seq<u8>)
    requires
        list@.len() <= i32::MAX,
        forall|i: int| 0 <= i < list@.len() ==> round_trips(#[trigger] list@[i]),
    ensures
        Vec::<T>::parse(list.wire() + rest) == Ok::<(Seq<<T as DeepView>::V>, nat), PacketError>(
            (list.deep_view(), list.wire().len()),
        ),
{
    let count = VarInt(list@.len() as i32);
    let bytes = list.wire() + rest;
    crate::protocol::var_int::lemma_var_int_round_trip(count.0, wire_items(list@) + rest);
    assert(bytes =~= count.wire() + (wire_items(list@) + rest));
    assert(bytes.skip(count.wire().len() as int) =~= wire_items(list@) + rest);
    lemma_items_round_trip(list@, rest);
    assert(list.deep_view() =~= Seq::new(list@.len(), |i: int| list@[i].deep_view()));
}

} // verus!
