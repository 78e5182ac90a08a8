//! A property of a player profile: a name, a value and an optional
//! signature over the value.

use crate::buffer::contents;
use crate::protocol::serial::{saturating_sum, PacketError, PacketRead, PacketWrite};
use bytes::BytesMut;
use vstd::prelude::*;

verus! {

/// One property of a player profile.
#[derive(Debug)]
pub struct Property {
    pub name: String,
    pub value: String,
    pub signature: Option<String>,
}

/// What a [`Property`] holds, as plain values.
pub struct PropertyView {
    pub name: Seq<char>,
    pub value: Seq<char>,
    pub signature: Option<Seq<char>>,
}

impl DeepView for Property {
    type V = PropertyView;

    open spec fn deep_view(&self) -> PropertyView {
        PropertyView {
            name: self.name.deep_view(),
            value: self.value.deep_view(),
            signature: self.signature.deep_view(),
        }
    }
}

impl PacketWrite for Property {
    open spec fn wire(&self) -> Seq<u8> {
        self.name.wire() + self.value.wire() + self.signature.wire()
    }

    open spec fn wire_error(&self) -> Option<PacketError> {
        match self.name.wire_error() {
            Some(e) => Some(e),
            None => {
                match self.value.wire_error() {
                    Some(e) => Some(e),
                    None => {
                        self.signature.wire_error()
                    },
                }
            },
        }
    }

    fn check(&self) -> (r: Result<(), PacketError>) {
        match self.name.check() {
            Err(e) => {
                return Err(e);
            },
            Ok(()) => {},
        }
        match self.value.check() {
            Err(e) => {
                return Err(e);
            },
            Ok(()) => {},
        }
        self.signature.check()
    }

    fn size(&self) -> (n: usize) {
        let n: usize = self.name.size();
        let n: usize = saturating_sum(n, self.value.size());
        saturating_sum(n, self.signature.size())
    }

    fn put(&self, buffer: &mut BytesMut) {
        self.name.put(buffer);
        self.value.put(buffer);
        self.signature.put(buffer);
        assert(contents(*buffer) =~= contents(*old(buffer)) + self.wire());
    }
}

impl PacketRead for Property {
    open spec fn parse(bytes: Seq<u8>) -> Result<(PropertyView, nat), PacketError> {
        match String::parse(bytes) {
            Err(e) => Err(e),
            Ok((name, u0)) => {
                match String::parse(bytes.skip(u0 as int)) {
                    Err(e) => Err(e),
                    Ok((value, u1)) => {
                        match Option::<String>::parse(bytes.skip((u0 + u1) as int)) {
                            Err(e) => Err(e),
                            Ok((signature, u2)) => Ok(
                                (
                                    PropertyView {
                                        name,
                                        value,
                                        signature,
                                    },
                                    (u0 + u1 + u2) as nat,
                                ),
                            ),
                        }
                    },
                }
            },
        }
    }

    fn decode(data: &[u8], start: usize) -> (r: Result<(Property, usize), PacketError>) {
        let ghost bytes = data@.skip(start as int);
        let (name, pos0) = match String::decode(data, start) {
            Ok(x) => x,
            Err(e) => {
                return Err(e);
            },
        };
        assert(bytes.skip(pos0 - start) =~= data@.skip(pos0 as int));
        let (value, pos1) = match String::decode(data, pos0) {
            Ok(x) => x,
            Err(e) => {
                return Err(e);
            },
        };
        assert(bytes.skip(pos1 - start) =~= data@.skip(pos1 as int));
        let (signature, pos2) = match Option::<String>::decode(data, pos1) {
            Ok(x) => x,
            Err(e) => {
                return Err(e);
            },
        };
        Ok((Property { name, value, signature }, pos2))
    }
}

} // verus!
