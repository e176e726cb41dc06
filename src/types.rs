use vstd::prelude::*;

use crate::channel::{extends, io_failure, Channel, Link};
use crate::error::{Error, INVALID_TYPE};
use crate::text::{decimal, decimal_text};
use crate::wire::{be16, be16_value, read_be16, write_be16};

verus! {

/// Types supported by µRPC.
#[derive(Debug, Clone, Copy, PartialEq, Eq, Structural)]
pub enum Type {
    /// 8-bit unsigned integer.
    U8,
    /// 16-bit unsigned integer.
    U16,
}

/// A value passed to or returned from a procedure.
#[derive(Debug, Clone, Copy, PartialEq, Eq, Structural)]
pub enum Value {
    /// 8-bit unsigned integer.
    U8(u8),
    /// 16-bit unsigned integer.
    U16(u16),
}

impl Type {
    /// The byte that stands for this type on the wire.
    pub open spec fn wire_byte(self) -> u8 {
        match self {
            Type::U8 => 0,
            Type::U16 => 1,
        }
    }

    /// Number of bytes a value of this type occupies on the wire.
    pub open spec fn size(self) -> nat {
        match self {
            Type::U8 => 1,
            Type::U16 => 2,
        }
    }

    /// The type that a wire byte stands for, if any.
    pub open spec fn spec_from_byte(b: u8) -> Option<Type> {
        if b == 0 {
            Some(Type::U8)
        } else if b == 1 {
            Some(Type::U16)
        } else {
            None
        }
    }

    /// Maps a wire byte to its type; any byte but `0x00` and `0x01` is a
    /// protocol violation.
    pub fn from_byte(b: u8) -> (r: Result<Type, Error>)
        ensures
            match Type::spec_from_byte(b) {
                Some(t) => r == Ok::<Type, Error>(t),
                None => r == Err::<Type, Error>(Error::ProtocolError { description: INVALID_TYPE }),
            },
    {
        match b {
            0x00 => Ok(Type::U8),
            0x01 => Ok(Type::U16),
            _ => Err(Error::ProtocolError { description: INVALID_TYPE }),
        }
    }

    /// Reads one byte from the link and maps it to a type.
    pub(crate) fn read<C: Channel>(link: &mut Link<C>) -> (r: Result<Type, Error>)
        ensures
            final(link).failures() == old(link).failures() + io_failure(r),
            final(link).sent() == old(link).sent(),
            extends(final(link).received(), old(link).received()),
            match r {
                Ok(t) => final(link).received() == old(link).received().push(t.wire_byte()),
                Err(e) => match e {
                    Error::IoError(_) => final(link).received() == old(link).received(),
                    Error::ProtocolError { description } => {
                        &&& description == INVALID_TYPE
                        &&& final(link).received().len() == old(link).received().len() + 1
                        &&& final(link).received() == old(link).received().push(
                            final(link).received().last(),
                        )
                        &&& Type::spec_from_byte(final(link).received().last()) is None
                    },
                    _ => false,
                },
            },
    {
        let b = link.recv_u8()?;
        Type::from_byte(b)
    }

    /// The display form of the type.
    pub open spec fn display(self) -> Seq<char> {
        match self {
            Type::U8 => "u8"@,
            Type::U16 => "u16"@,
        }
    }

    /// The display form of the type: `u8` or `u16`.
    pub fn name(&self) -> (r: &'static str)
        ensures
            r@ == self.display(),
    {
        match self {
            Type::U8 => "u8",
            Type::U16 => "u16",
        }
    }
}

/// The value that `bytes` encode when read as type `t`, if they have the
/// length that `t` takes.
pub open spec fn decoded(t: Type, bytes: Seq<u8>) -> Option<Value> {
    if bytes.len() != t.size() {
        None
    } else {
        match t {
            Type::U8 => Some(Value::U8(bytes[0])),
            Type::U16 => Some(Value::U16(be16_value(bytes[0], bytes[1]))),
        }
    }
}

impl Value {
    /// The type of this value.
    pub open spec fn type_of(self) -> Type {
        match self {
            Value::U8(_) => Type::U8,
            Value::U16(_) => Type::U16,
        }
    }

    /// The bytes that carry this value on the wire.
    pub open spec fn encoding(self) -> Seq<u8> {
        match self {
            Value::U8(x) => seq![x],
            Value::U16(x) => be16(x),
        }
    }

    /// The display form of the value: its number in decimal.
    pub open spec fn display(self) -> Seq<char> {
        match self {
            Value::U8(x) => decimal(x as nat),
            Value::U16(x) => decimal(x as nat),
        }
    }

    /// Writes the value's number in decimal.
    pub fn text(&self) -> (r: String)
        ensures
            r@ == self.display(),
    {
        match self {
            Value::U8(x) => decimal_text(*x as u64),
            Value::U16(x) => decimal_text(*x as u64),
        }
    }

    /// Gets the type of this value.
    pub fn ty(&self) -> (r: Type)
        ensures
            r == self.type_of(),
    {
        match self {
            Value::U8(_) => Type::U8,
            Value::U16(_) => Type::U16,
        }
    }

    /// Encodes this value for transmission.
    pub fn encode(&self) -> (r: Vec<u8>)
        ensures
            r@ == self.encoding(),
    {
        match self {
            Value::U8(x) => {
                let mut v: Vec<u8> = Vec::new();
                v.push(*x);
                v
            },
            Value::U16(x) => {
                let b = write_be16(*x);
                let mut v: Vec<u8> = Vec::new();
                v.push(b[0]);
                v.push(b[1]);
                assert(v@ =~= be16(*x));
                v
            },
        }
    }

    /// Decodes a value of type `ty` from exactly the bytes that type takes.
    pub fn decode(ty: Type, bytes: &[u8]) -> (r: Option<Value>)
        ensures
            r == decoded(ty, bytes@),
    {
        match ty {
            Type::U8 => {
                if bytes.len() != 1 {
                    None
                } else {
                    Some(Value::U8(bytes[0]))
                }
            },
            Type::U16 => {
                if bytes.len() != 2 {
                    None
                } else {
                    Some(Value::U16(read_be16(bytes)))
                }
            },
        }
    }

    /// Reads a value of type `ty` from the link: as many bytes as the type
    /// takes, in network order.
    pub(crate) fn read<C: Channel>(ty: Type, link: &mut Link<C>) -> (r: Result<Value, Error>)
        ensures
            final(link).failures() == old(link).failures() + io_failure(r),
            final(link).sent() == old(link).sent(),
            extends(final(link).received(), old(link).received()),
            match r {
                Ok(v) => {
                    &&& v.type_of() == ty
                    &&& decoded(
                        ty,
                        final(link).received().subrange(
                            old(link).received().len() as int,
                            final(link).received().len() as int,
                        ),
                    ) == Some(v)
                    &&& final(link).received() == old(link).received() + v.encoding()
                },
                Err(e) => e is IoError,
            },
    {
        match ty {
            Type::U8 => {
                let b = link.recv_u8()?;
                let v = Value::U8(b);
                proof {
                    lemma_value_round_trip(ty, v);
                    assert(link.received().subrange(
                        old(link).received().len() as int,
                        link.received().len() as int,
                    ) =~= v.encoding());
                }
                Ok(v)
            },
            Type::U16 => {
                let n = link.recv_u16()?;
                let v = Value::U16(n);
                proof {
                    lemma_value_round_trip(ty, v);
                    assert(link.received().subrange(
                        old(link).received().len() as int,
                        link.received().len() as int,
                    ) =~= v.encoding());
                }
                Ok(v)
            },
        }
    }

    /// Sends this value's encoding over the link.
    pub(crate) fn write<C: Channel>(&self, link: &mut Link<C>) -> (r: Result<(), Error>)
        ensures
            final(link).failures() == old(link).failures() + io_failure(r),
            final(link).sent() == old(link).sent() + self.encoding(),
            final(link).received() == old(link).received(),
            r is Err ==> r->Err_0 is IoError,
    {
        let bytes = self.encode();
        link.send(bytes.as_slice())
    }
}

/// Decoding a value's encoding as the value's type gives the value back.
pub proof fn lemma_value_round_trip(t: Type, v: Value)
    requires
        v.type_of() == t,
    ensures
        decoded(t, v.encoding()) == Some(v),
        v.encoding().len() == t.size(),
{
    if let Value::U16(x) = v {
        crate::wire::lemma_be16_round_trip(x);
    }
}

/// Two values of one type with the same encoding are the same value, so
/// a read that delivers a value's encoding gives that value back.
pub proof fn lemma_encoding_injective(t: Type, v: Value, w: Value)
    requires
        v.type_of() == t,
        w.type_of() == t,
        v.encoding() == w.encoding(),
    ensures
        v == w,
{
    lemma_value_round_trip(t, v);
    lemma_value_round_trip(t, w);
}

} // verus!
