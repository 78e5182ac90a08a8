//! What can go wrong while decoding or handling a packet, and the two
//! traits every value on the wire implements.

use crate::buffer::{advance, as_slice, contents, remaining_mut};
use bytes::BytesMut;
use vstd::prelude::*;

verus! {

/// The error of every codec and handler function.
#[derive(Debug, Clone, Copy, PartialEq, Eq, Structural)]
pub enum PacketError {
    /// The input ended before the value did. More bytes may cure it.
    Incomplete,
    /// A string announced more than 32767 bytes.
    StringTooLong,
    /// A variable-length integer ran past its fifth byte.
    VarIntTooBig,
    /// A string's bytes were not UTF-8.
    Utf8,
    /// A frame announced a negative length or one beyond the protocol's limit.
    BadLength,
    /// The packet id means nothing in the connection's state.
    UnknownPacket,
    /// The packet decoded, but a field holds a value the protocol rules out.
    InvalidData,
    /// The state or packet is known and not handled by this server.
    NotImplemented,
    /// The client's protocol number is not the one this server speaks.
    VersionMismatch,
}

impl PacketError {
    /// Whether the input itself was ill-formed: a bad variable-length
    /// integer, an overlong string or frame, or bytes that are not UTF-8.
    pub open spec fn malformed(self) -> bool {
        self == PacketError::StringTooLong || self == PacketError::VarIntTooBig || self
            == PacketError::Utf8 || self == PacketError::BadLength
    }

    /// Whether waiting for more input can cure the error. Only a short read
    /// can be cured; every other error ends the connection.
    pub open spec fn recoverable(self) -> bool {
        self == PacketError::Incomplete
    }

    /// Whether the input itself was ill-formed.
    pub fn is_malformed(&self) -> (b: bool)
        ensures
            b == self.malformed(),
    {
        match self {
            PacketError::StringTooLong => true,
            PacketError::VarIntTooBig => true,
            PacketError::Utf8 => true,
            PacketError::BadLength => true,
            _ => false,
        }
    }

    /// Whether waiting for more input can cure the error.
    pub fn is_recoverable(&self) -> (b: bool)
        ensures
            b == self.recoverable(),
    {
        match self {
            PacketError::Incomplete => true,
            _ => false,
        }
    }
}

/// `n`, or the largest `usize` where `n` is larger still.
pub open spec fn clamped(n: nat) -> usize {
    if n <= usize::MAX {
        n as usize
    } else {
        usize::MAX
    }
}

/// The sum of `a` and `b`, or the largest `usize` where the sum is larger
/// still.
pub fn saturating_sum(a: usize, b: usize) -> (sum: usize)
    ensures
        sum == clamped((a + b) as nat),
{
    if a > usize::MAX - b {
        usize::MAX
    } else {
        a + b
    }
}

/// A value that can be written to the wire.
pub trait PacketWrite {
    /// The bytes of this value on the wire.
    spec fn wire(&self) -> Seq<u8>;

    /// Why this value cannot be written, if it cannot.
    spec fn wire_error(&self) -> Option<PacketError>;

    /// Says whether the value can be written, and why not if it cannot.
    fn check(&self) -> (r: Result<(), PacketError>)
        ensures
            match self.wire_error() {
                Some(e) => r == Err::<(), PacketError>(e),
                None => r is Ok,
            },
    ;

    /// The number of bytes the value takes on the wire; the largest
    /// `usize` where it takes more than that.
    fn size(&self) -> (n: usize)
        requires
            self.wire_error() is None,
        ensures
            n == clamped(self.wire().len()),
    ;

    /// Appends the bytes of a value that can be written to a buffer that
    /// can take them.
    fn put(&self, buffer: &mut BytesMut)
        requires
            self.wire_error() is None,
            contents(*old(buffer)).len() + self.wire().len() <= isize::MAX,
        ensures
            contents(*final(buffer)) == contents(*old(buffer)) + self.wire(),
    ;

    /// Appends the value's bytes to `buffer`, all of them or none.
    ///
    /// A value that cannot be written is an error, which says why. One
    /// that can is appended, unless the buffer cannot grow by that many
    /// bytes: that is `Incomplete`. On an error the buffer is left as it
    /// was.
    fn write(&self, buffer: &mut BytesMut) -> (r: Result<(), PacketError>)
        ensures
            match self.wire_error() {
                Some(e) => r == Err::<(), PacketError>(e),
                None => if contents(*old(buffer)).len() + self.wire().len() <= isize::MAX {
                    r is Ok
                } else {
                    r == Err::<(), PacketError>(PacketError::Incomplete)
                },
            },
            r is Ok ==> contents(*final(buffer)) == contents(*old(buffer)) + self.wire(),
            r is Err ==> contents(*final(buffer)) == contents(*old(buffer)),
    {
        match self.check() {
            Err(e) => {
                return Err(e);
            },
            Ok(()) => {},
        }
        let needed = self.size();
        if remaining_mut(buffer) < needed {
            return Err(PacketError::Incomplete);
        }
        self.put(buffer);
        Ok(())
    }
}

/// A value that can be read from the wire.
pub trait PacketRead: Sized + DeepView {
    /// What decoding from the head of `bytes` gives: the value, as its
    /// view, and the number of bytes it took; or the error.
    spec fn parse(bytes: Seq<u8>) -> Result<(<Self as DeepView>::V, nat), PacketError>;

    /// Decodes a value from `data` at `start` and gives the position after
    /// it. Nothing is consumed.
    fn decode(data: &[u8], start: usize) -> (r: Result<(Self, usize), PacketError>)
        requires
            start <= data@.len(),
        ensures
            match Self::parse(data@.skip(start as int)) {
                Ok((v, used)) => r matches Ok((x, end)) && x.deep_view() == v && end == start
                    + used && end <= data@.len(),
                Err(e) => r matches Err(f) && f == e,
            },
    ;

    /// Decodes a value from the head of `buffer` and removes its bytes.
    /// On an error, a short read among them, the buffer is left as it was.
    fn read(buffer: &mut BytesMut) -> (r: Result<Self, PacketError>)
        ensures
            match Self::parse(contents(*old(buffer))) {
                Ok((v, used)) => r matches Ok(x) && x.deep_view() == v && used <= contents(
                    *old(buffer),
                ).len() && contents(*final(buffer)) == contents(*old(buffer)).skip(used as int),
                Err(e) => r matches Err(f) && f == e && contents(*final(buffer)) == contents(
                    *old(buffer),
                ),
            },
    {
        let decoded = Self::decode(as_slice(buffer), 0);
        proof {
            assert(contents(*buffer).skip(0) =~= contents(*buffer));
        }
        match decoded {
            Ok((value, end)) => {
                advance(buffer, end);
                Ok(value)
            },
            Err(e) => Err(e),
        }
    }
}

} // verus!
