//! Field values: how the typed fields of a submodule are encoded in its data bytes.
//!
//! Byte types are big-endian. A `Real` is handled as the 32 bits of its IEEE 754 single
//! precision form.

use vstd::prelude::*;

use crate::bytes;

verus! {

/// Type of one field.
#[derive(Debug, Clone, Copy, PartialEq, Eq, Structural)]
pub enum FieldType {
    /// One bit.
    Bool,
    /// Signed 16-bit.
    Int,
    /// Unsigned 16-bit.
    Word,
    /// Signed 32-bit.
    Dint,
    /// Single precision floating point.
    Real,
}

impl FieldType {
    /// Length in bytes of a byte type, `None` for `Bool`, which takes a bit.
    #[verifier::allow_in_spec]
    pub fn byte_len(self) -> Option<usize>
        returns
            (match self {
                FieldType::Bool => None::<usize>,
                FieldType::Int => Some(2usize),
                FieldType::Word => Some(2usize),
                FieldType::Dint => Some(4usize),
                FieldType::Real => Some(4usize),
            }),
    {
        match self {
            FieldType::Bool => None,
            FieldType::Int => Some(2),
            FieldType::Word => Some(2),
            FieldType::Dint => Some(4),
            FieldType::Real => Some(4),
        }
    }

    /// How many bytes of data a value of this type touches.
    #[verifier::allow_in_spec]
    pub fn span(self) -> usize
        returns
            (match self.byte_len() {
                Some(n) => n,
                None => 1usize,
            }),
    {
        match self.byte_len() {
            Some(n) => n,
            None => 1,
        }
    }
}

/// Errors from reading or writing a value.
#[derive(Debug, Clone, Copy, PartialEq, Eq, Structural)]
pub enum CodecError {
    /// Fewer bytes than the value takes.
    TooShort {
        /// Bytes the value takes.
        need: usize,
        /// Bytes present.
        have: usize,
    },
    /// A bit number beyond 7.
    BadBit(usize),
}

/// A value of one of the field types.
#[derive(Debug, Clone, Copy, PartialEq, Eq, Structural)]
pub enum Value {
    Bool(bool),
    Int(i16),
    Word(u16),
    Dint(i32),
    /// The bits of the number.
    Real(u32),
}

/// Whether bit `n` of `b` is set.
pub open spec fn bit_of(b: u8, n: usize) -> bool {
    (b >> n) & 1 == 1
}

/// `b` with bit `n` set to `v`.
pub open spec fn with_bit(b: u8, n: usize, v: bool) -> u8 {
    if v {
        b | (1u8 << n)
    } else {
        b & !(1u8 << n)
    }
}

/// Setting a bit sets it and no other.
pub proof fn with_bit_changes_one_bit(b: u8, n: usize, v: bool, m: usize)
    requires
        n < 8,
        m < 8,
    ensures
        bit_of(with_bit(b, n, v), n) == v,
        m != n ==> bit_of(with_bit(b, n, v), m) == bit_of(b, m),
{
    assert(n < 8 ==> ((b | (1u8 << n)) >> n) & 1 == 1) by (bit_vector);
    assert(n < 8 ==> ((b & !(1u8 << n)) >> n) & 1 == 0) by (bit_vector);
    assert(n < 8 && m < 8 && m != n ==> ((b | (1u8 << n)) >> m) & 1 == (b >> m) & 1)
        by (bit_vector);
    assert(n < 8 && m < 8 && m != n ==> ((b & !(1u8 << n)) >> m) & 1 == (b >> m) & 1)
        by (bit_vector);
}

/// Why a value of type `ty` cannot be read from or written to `len` bytes, if it cannot.
pub open spec fn codec_fault(ty: FieldType, len: int, bit: usize) -> Option<CodecError> {
    if len < ty.span() {
        Some(CodecError::TooShort { need: ty.span(), have: len as usize })
    } else if ty == FieldType::Bool && bit >= 8 {
        Some(CodecError::BadBit(bit))
    } else {
        None
    }
}

impl Value {
    /// What type the value has.
    #[verifier::allow_in_spec]
    pub fn field_type(&self) -> FieldType
        returns
            (match *self {
                Value::Bool(_) => FieldType::Bool,
                Value::Int(_) => FieldType::Int,
                Value::Word(_) => FieldType::Word,
                Value::Dint(_) => FieldType::Dint,
                Value::Real(_) => FieldType::Real,
            }),
    {
        match *self {
            Value::Bool(_) => FieldType::Bool,
            Value::Int(_) => FieldType::Int,
            Value::Word(_) => FieldType::Word,
            Value::Dint(_) => FieldType::Dint,
            Value::Real(_) => FieldType::Real,
        }
    }

    /// The value of type `ty` that `b` starts with; a `Bool` is bit `bit` of the first byte.
    pub open spec fn at(ty: FieldType, b: Seq<u8>, bit: usize) -> Value {
        match ty {
            FieldType::Bool => Value::Bool(bit_of(b[0], bit)),
            FieldType::Int => Value::Int(bytes::be16(b, 0) as i16),
            FieldType::Word => Value::Word(bytes::be16(b, 0)),
            FieldType::Dint => Value::Dint(bytes::be32(b, 0) as i32),
            FieldType::Real => Value::Real(bytes::be32(b, 0)),
        }
    }

    /// `b` with the value written over its start.
    pub open spec fn over(self, b: Seq<u8>, bit: usize) -> Seq<u8> {
        match self {
            Value::Bool(v) => b.update(0, with_bit(b[0], bit, v)),
            Value::Int(v) => bytes::be16_bytes(v as u16) + b.skip(2),
            Value::Word(v) => bytes::be16_bytes(v) + b.skip(2),
            Value::Dint(v) => bytes::be32_bytes(v as u32) + b.skip(4),
            Value::Real(v) => bytes::be32_bytes(v) + b.skip(4),
        }
    }

    /// Read a value of type `ty` from offset `i` of `b`.
    pub fn decode_at(ty: FieldType, b: &[u8], i: usize, bit: usize) -> (res: Result<
        Value,
        CodecError,
    >)
        requires
            i <= b@.len(),
        ensures
            match codec_fault(ty, b@.len() - i, bit) {
                Some(e) => res == Err::<Value, _>(e),
                None => res == Ok::<_, CodecError>(Value::at(ty, b@.skip(i as int), bit)),
            },
    {
        let have: usize = b.len() - i;
        if have < ty.span() {
            return Err(CodecError::TooShort { need: ty.span(), have });
        }
        let ghost rest = b@.skip(i as int);
        match ty {
            FieldType::Bool => {
                if bit >= 8 {
                    return Err(CodecError::BadBit(bit));
                }
                Ok(Value::Bool((b[i] >> bit) & 1 == 1))
            },
            FieldType::Int => {
                let v: u16 = bytes::read_be16(b, i);
                Ok(Value::Int(v as i16))
            },
            FieldType::Word => Ok(Value::Word(bytes::read_be16(b, i))),
            FieldType::Dint => {
                let v: u32 = bytes::read_be32(b, i);
                Ok(Value::Dint(v as i32))
            },
            FieldType::Real => Ok(Value::Real(bytes::read_be32(b, i))),
        }
    }

    /// Read a value of type `ty` from the start of `b`; a `Bool` is bit `bit` of the first
    /// byte, byte types ignore `bit`.
    pub fn decode(ty: FieldType, b: &[u8], bit: usize) -> (res: Result<Value, CodecError>)
        ensures
            match codec_fault(ty, b@.len() as int, bit) {
                Some(e) => res == Err::<Value, _>(e),
                None => res == Ok::<_, CodecError>(Value::at(ty, b@, bit)),
            },
    {
        assert(b@.skip(0) =~= b@);
        Self::decode_at(ty, b, 0, bit)
    }

    /// Write the value at offset `i` of `b`; the bytes before stay, and so do those behind.
    pub fn encode_at(&self, b: &mut Vec<u8>, i: usize, bit: usize) -> (res: Result<(), CodecError>)
        requires
            i <= old(b)@.len(),
        ensures
            match codec_fault(self.field_type(), old(b)@.len() - i, bit) {
                Some(e) => res == Err::<(), _>(e) && final(b)@ == old(b)@,
                None => res == Ok::<_, CodecError>(()) && final(b)@ == old(b)@.take(i as int)
                    + self.over(old(b)@.skip(i as int), bit),
            },
    {
        let ty = self.field_type();
        let have: usize = b.len() - i;
        if have < ty.span() {
            return Err(CodecError::TooShort { need: ty.span(), have });
        }
        let ghost rest = b@.skip(i as int);
        match *self {
            Value::Bool(v) => {
                if bit >= 8 {
                    return Err(CodecError::BadBit(bit));
                }
                let byte: u8 = b[i];
                b.set(
                    i,
                    if v {
                        byte | (1u8 << bit)
                    } else {
                        byte & !(1u8 << bit)
                    },
                );
            },
            Value::Int(v) => {
                set_be16(b, i, v as u16);
            },
            Value::Word(v) => {
                set_be16(b, i, v);
            },
            Value::Dint(v) => {
                set_be32(b, i, v as u32);
            },
            Value::Real(v) => {
                set_be32(b, i, v);
            },
        }
        assert(b@ =~= old(b)@.take(i as int) + self.over(rest, bit));
        Ok(())
    }

    /// Write the value over the start of `b`; a `Bool` is bit `bit` of the first byte, byte
    /// types ignore `bit`.
    pub fn encode(&self, b: &mut Vec<u8>, bit: usize) -> (res: Result<(), CodecError>)
        ensures
            match codec_fault(self.field_type(), old(b)@.len() as int, bit) {
                Some(e) => res == Err::<(), _>(e) && final(b)@ == old(b)@,
                None => res == Ok::<_, CodecError>(()) && final(b)@ == self.over(old(b)@, bit),
            },
    {
        let r = self.encode_at(b, 0, bit);
        assert(old(b)@.skip(0) =~= old(b)@);
        assert(old(b)@.take(0) + self.over(old(b)@, bit) =~= self.over(old(b)@, bit));
        r
    }
}

/// Overwrite two bytes with the big-endian bytes of `v`.
fn set_be16(b: &mut Vec<u8>, i: usize, v: u16)
    requires
        i + 2 <= old(b).len(),
    ensures
        final(b)@ == old(b)@.take(i as int) + bytes::be16_bytes(v) + old(b)@.skip(i + 2),
{
    b.set(i, (v / 0x100) as u8);
    b.set(i + 1, (v % 0x100) as u8);
    assert(b@ =~= old(b)@.take(i as int) + bytes::be16_bytes(v) + old(b)@.skip(i + 2));
}

/// Overwrite four bytes with the big-endian bytes of `v`.
fn set_be32(b: &mut Vec<u8>, i: usize, v: u32)
    requires
        i + 4 <= old(b).len(),
    ensures
        final(b)@ == old(b)@.take(i as int) + bytes::be32_bytes(v) + old(b)@.skip(i + 4),
{
    b.set(i, (v / 0x100_0000) as u8);
    b.set(i + 1, (v / 0x1_0000 % 0x100) as u8);
    b.set(i + 2, (v / 0x100 % 0x100) as u8);
    b.set(i + 3, (v % 0x100) as u8);
    assert(b@ =~= old(b)@.take(i as int) + bytes::be32_bytes(v) + old(b)@.skip(i + 4));
}

/// A written value reads back, and its bytes are as many as before.
pub proof fn value_round_trip(v: Value, b: Seq<u8>, bit: usize)
    requires
        codec_fault(v.field_type(), b.len() as int, bit) is None,
    ensures
        v.over(b, bit).len() == b.len(),
        Value::at(v.field_type(), v.over(b, bit), bit) == v,
{
    let none = Seq::<u8>::empty();
    match v {
        Value::Bool(x) => {
            with_bit_changes_one_bit(b[0], bit, x, 0);
        },
        Value::Int(x) => {
            bytes::lemma_be16_round_trip(x as u16, none, b.skip(2));
            assert(none + bytes::be16_bytes(x as u16) + b.skip(2) =~= v.over(b, bit));
            assert((x as u16) as i16 == x) by (bit_vector);
        },
        Value::Word(x) => {
            bytes::lemma_be16_round_trip(x, none, b.skip(2));
            assert(none + bytes::be16_bytes(x) + b.skip(2) =~= v.over(b, bit));
        },
        Value::Dint(x) => {
            bytes::lemma_be32_round_trip(x as u32, none, b.skip(4));
            assert(none + bytes::be32_bytes(x as u32) + b.skip(4) =~= v.over(b, bit));
            assert((x as u32) as i32 == x) by (bit_vector);
        },
        Value::Real(x) => {
            bytes::lemma_be32_round_trip(x, none, b.skip(4));
            assert(none + bytes::be32_bytes(x) + b.skip(4) =~= v.over(b, bit));
        },
    }
}

/// The lengths of the types: a bit, two bytes or four.
pub proof fn types_have_their_lengths(ty: FieldType)
    ensures
        ty.byte_len() is None <==> ty == FieldType::Bool,
        ty.byte_len() == Some(2usize) <==> ty == FieldType::Int || ty == FieldType::Word,
        ty.byte_len() == Some(4usize) <==> ty == FieldType::Dint || ty == FieldType::Real,
        ty.span() == 1 <==> ty == FieldType::Bool,
        ty.byte_len() matches Some(n) ==> ty.span() == n,
{
}

/// A bit has the weight of its place: bit 0 is that of odd numbers.
pub proof fn bits_have_their_weights(b: u8)
    ensures
        bit_of(b, 0) <==> b % 2 == 1,
        bit_of(b, 1) <==> b / 2 % 2 == 1,
        bit_of(b, 2) <==> b / 4 % 2 == 1,
        bit_of(b, 3) <==> b / 8 % 2 == 1,
        bit_of(b, 4) <==> b / 16 % 2 == 1,
        bit_of(b, 5) <==> b / 32 % 2 == 1,
        bit_of(b, 6) <==> b / 64 % 2 == 1,
        bit_of(b, 7) <==> b / 128 % 2 == 1,
{
    assert(((b >> 0usize) & 1 == 1 <==> b % 2 == 1) && ((b >> 1usize) & 1 == 1 <==> b / 2 % 2 == 1)
        && ((b >> 2usize) & 1 == 1 <==> b / 4 % 2 == 1) && ((b >> 3usize) & 1 == 1 <==> b / 8 % 2
        == 1) && ((b >> 4usize) & 1 == 1 <==> b / 16 % 2 == 1) && ((b >> 5usize) & 1 == 1 <==> b
        / 32 % 2 == 1) && ((b >> 6usize) & 1 == 1 <==> b / 64 % 2 == 1) && ((b >> 7usize) & 1 == 1
        <==> b / 128 % 2 == 1)) by (bit_vector);
}

/// Numbers are read with their most significant byte first, those with a sign as two's
/// complement.
pub proof fn numbers_are_read_from_their_first_byte_on(b: Seq<u8>, bit: usize)
    ensures
        ({
            let w = b[0] * 256 + b[1];
            let d = b[0] * 16_777_216 + b[1] * 65_536 + b[2] * 256 + b[3];
            &&& Value::at(FieldType::Bool, b, bit) == Value::Bool(bit_of(b[0], bit))
            &&& Value::at(FieldType::Word, b, bit) matches Value::Word(v) && v == w
            &&& Value::at(FieldType::Real, b, bit) matches Value::Real(v) && v == d
            &&& Value::at(FieldType::Int, b, bit) matches Value::Int(v) && v == (if w < 0x8000 {
                w
            } else {
                w - 0x1_0000
            })
            &&& Value::at(FieldType::Dint, b, bit) matches Value::Dint(v) && v == (if d
                < 0x8000_0000 {
                d
            } else {
                d - 0x1_0000_0000
            })
        }),
{
    let (w, d) = (bytes::be16(b, 0), bytes::be32(b, 0));
    bytes::bytes_read_as_their_sum(b, 0);
    assert((w as i16) == (if w < 0x8000 { w as int } else { w - 0x1_0000 })) by (bit_vector);
    assert((d as i32) == (if d < 0x8000_0000 { d as int } else { d - 0x1_0000_0000 }))
        by (bit_vector);
}

/// Numbers are written with their most significant byte first, those with a sign as two's
/// complement, and the bytes behind them stay.
pub proof fn numbers_are_written_from_their_first_byte_on(v: Value, b: Seq<u8>, bit: usize)
    requires
        codec_fault(v.field_type(), b.len() as int, bit) is None,
    ensures
        ({
            let r = v.over(b, bit);
            let w = r[0] * 256 + r[1];
            let d = r[0] * 16_777_216 + r[1] * 65_536 + r[2] * 256 + r[3];
            &&& r.len() == b.len()
            &&& forall|k: int| v.field_type().span() <= k < b.len() ==> #[trigger] r[k] == b[k]
            &&& v matches Value::Word(x) ==> w == x
            &&& v matches Value::Real(x) ==> d == x
            &&& v matches Value::Int(x) ==> w == (if x >= 0 { x as int } else { x + 0x1_0000 })
            &&& v matches Value::Dint(x) ==> d == (if x >= 0 {
                x as int
            } else {
                x + 0x1_0000_0000
            })
            &&& v matches Value::Bool(x) ==> bit_of(r[0], bit) == x
        }),
{
    match v {
        Value::Bool(x) => {
            with_bit_changes_one_bit(b[0], bit, x, bit);
        },
        Value::Word(x) => {
            bytes::values_are_the_sums_of_their_bytes(x, 0);
        },
        Value::Int(x) => {
            bytes::values_are_the_sums_of_their_bytes(x as u16, 0);
            assert((x as u16) == (if x >= 0 { x as int } else { x + 0x1_0000 })) by (bit_vector);
        },
        Value::Real(x) => {
            bytes::values_are_the_sums_of_their_bytes(0, x);
        },
        Value::Dint(x) => {
            bytes::values_are_the_sums_of_their_bytes(0, x as u32);
            assert((x as u32) == (if x >= 0 { x as int } else { x + 0x1_0000_0000 }))
                by (bit_vector);
        },
    }
}

/// A value can be read or written just where its bytes are there and its bit is one of eight.
pub proof fn values_need_their_bytes(ty: FieldType, len: int, bit: usize)
    requires
        0 <= len <= usize::MAX,
    ensures
        ({
            let need = match ty {
                FieldType::Bool => 1int,
                FieldType::Int | FieldType::Word => 2,
                FieldType::Dint | FieldType::Real => 4,
            };
            match codec_fault(ty, len, bit) {
                None => len >= need && (ty == FieldType::Bool ==> bit <= 7),
                Some(CodecError::TooShort { need: n, have }) => n == need && have == len && len
                    < need,
                Some(CodecError::BadBit(n)) => len >= need && ty == FieldType::Bool && n == bit
                    && bit > 7,
            }
        }),
{
}

} // verus!
