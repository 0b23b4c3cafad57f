use crate::schema::AttributeType;
use vstd::prelude::*;
use vstd::utf8::{decode_utf8, valid_utf8};

verus! {

/// A decoded attribute. A float is held as the 64 bits of its IEEE 754
/// encoding, a timestamp as the nanoseconds since the Unix epoch.
#[derive(Debug, Clone)]
pub enum TypedValue {
    String(String),
    Int(i64),
    UInt(u64),
    Float(u64),
    Bytes(Vec<u8>),
    Bool(bool),
    Timestamp(i64),
}

/// What a `TypedValue` holds.
pub enum TypedValueModel {
    String(Seq<char>),
    Int(i64),
    UInt(u64),
    Float(u64),
    Bytes(Seq<u8>),
    Bool(bool),
    Timestamp(i64),
}

impl View for TypedValue {
    type V = TypedValueModel;

    open spec fn view(&self) -> TypedValueModel {
        match self {
            TypedValue::String(text) => TypedValueModel::String(text@),
            TypedValue::Int(number) => TypedValueModel::Int(*number),
            TypedValue::UInt(number) => TypedValueModel::UInt(*number),
            TypedValue::Float(bits) => TypedValueModel::Float(*bits),
            TypedValue::Bytes(bytes) => TypedValueModel::Bytes(bytes@),
            TypedValue::Bool(flag) => TypedValueModel::Bool(*flag),
            TypedValue::Timestamp(nanos) => TypedValueModel::Timestamp(*nanos),
        }
    }
}

/// Why a buffer could not be decoded.
#[derive(Debug, Clone, Copy, PartialEq, Eq, Structural)]
pub enum DecodeError {
    /// The type has a fixed width and the buffer has another length.
    WrongLength { expected: usize, actual: usize },
    /// The buffer is not UTF-8.
    InvalidEncoding,
    /// Values of this type are not decoded.
    UnsupportedType(AttributeType),
}

/// The width in bytes of the values of a type: one byte for a boolean, eight
/// for a number and a timestamp.
pub open spec fn fixed_width(cel_type: AttributeType) -> nat {
    match cel_type {
        AttributeType::Bool => 1,
        _ => 8,
    }
}

/// The number that bytes stand for, the least significant byte first.
pub open spec fn little_endian(bytes: Seq<u8>) -> nat
    decreases bytes.len(),
{
    if bytes.len() == 0 {
        0
    } else {
        bytes[0] as nat + 256 * little_endian(bytes.skip(1))
    }
}

/// The signed number that 64 bits stand for in two's complement.
pub open spec fn twos_complement(word: u64) -> i64 {
    if word < 0x8000_0000_0000_0000 {
        word as i64
    } else {
        (word - 0x1_0000_0000_0000_0000) as i64
    }
}

/// The value that a buffer holds, read as a value of the given type.
///
/// Text is UTF-8 and anything else is rejected. A boolean is one byte, true
/// unless it is zero. The integers, the float and the timestamp are 8 bytes,
/// least significant first. Bytes are taken as they are. Maps, lists and
/// values of unknown type are not decoded.
pub open spec fn decode_spec(cel_type: AttributeType, raw: Seq<u8>) -> Result<
    TypedValueModel,
    DecodeError,
> {
    match cel_type {
        AttributeType::String => match decode_text_spec(raw) {
            Ok(text) => Ok(TypedValueModel::String(text)),
            Err(error) => Err(error),
        },
        AttributeType::Bytes => Ok(TypedValueModel::Bytes(raw)),
        AttributeType::Bool | AttributeType::Int | AttributeType::UInt | AttributeType::Float
        | AttributeType::Timestamp => if raw.len() != fixed_width(cel_type) {
            Err(
                DecodeError::WrongLength {
                    expected: fixed_width(cel_type) as usize,
                    actual: raw.len() as usize,
                },
            )
        } else {
            let word = little_endian(raw) as u64;
            Ok(
                match cel_type {
                    AttributeType::Bool => TypedValueModel::Bool(raw[0] != 0),
                    AttributeType::Int => TypedValueModel::Int(twos_complement(word)),
                    AttributeType::UInt => TypedValueModel::UInt(word),
                    AttributeType::Float => TypedValueModel::Float(word),
                    _ => TypedValueModel::Timestamp(twos_complement(word)),
                },
            )
        },
        _ => Err(DecodeError::UnsupportedType(cel_type)),
    }
}

/// `std::str::from_utf8` gives the text that the bytes encode, and fails
/// exactly where they are not UTF-8.
#[verifier::external_body]
fn text_from_utf8(bytes: &[u8]) -> (text: Option<&str>)
    ensures
        text is Some <==> valid_utf8(bytes@),
        text matches Some(decoded) ==> decoded@ == decode_utf8(bytes@),
{
    std::str::from_utf8(bytes).ok()
}

/// The text that a buffer holds in UTF-8.
pub open spec fn decode_text_spec(raw: Seq<u8>) -> Result<Seq<char>, DecodeError> {
    if valid_utf8(raw) {
        Ok(decode_utf8(raw))
    } else {
        Err(DecodeError::InvalidEncoding)
    }
}

/// Reads a buffer as UTF-8 text.
pub fn decode_text(raw: &[u8]) -> (decoded: Result<String, DecodeError>)
    ensures
        match decoded {
            Ok(text) => decode_text_spec(raw@) == Ok::<Seq<char>, DecodeError>(text@),
            Err(error) => decode_text_spec(raw@) == Err::<Seq<char>, DecodeError>(error),
        },
{
    match text_from_utf8(raw) {
        Some(text) => Ok(text.to_owned()),
        None => Err(DecodeError::InvalidEncoding),
    }
}

fn word_of(raw: &Vec<u8>) -> (word: u64)
    requires
        raw.len() == 8,
    ensures
        word == little_endian(raw@),
{
    let mut word: u64 = 0;
    let mut i: usize = 8;
    assert(raw@.skip(8) =~= Seq::empty());
    while i > 0
        invariant
            raw.len() == 8,
            i <= 8,
            word == little_endian(raw@.skip(i as int)),
            word < pow256(8 - i),
        decreases i,
    {
        i = i - 1;
        assert(raw@.skip(i as int).skip(1) =~= raw@.skip(i + 1));
        assert(raw@.skip(i as int)[0] == raw[i as int]);
        assert(pow256(8 - i) == 256 * pow256(8 - i - 1));
        assert(pow256(8 - i) <= 0x1_0000_0000_0000_0000) by {
            reveal_with_fuel(pow256, 10);
        }
        word = word * 256 + raw[i] as u64;
    }
    assert(raw@.skip(0) =~= raw@);
    word
}

/// 256 to the power of `n`, for the powers that a word of 64 bits has.
spec fn pow256(n: int) -> int
    decreases n,
{
    if n <= 0 {
        1
    } else {
        256 * pow256(n - 1)
    }
}

fn signed(word: u64) -> (number: i64)
    ensures
        number == twos_complement(word),
{
    if word < 0x8000_0000_0000_0000 {
        word as i64
    } else {
        let below: u64 = u64::MAX - word;
        -(below as i64) - 1
    }
}

/// Decodes a buffer that the host handed over into a value of the given type.
pub fn decode(cel_type: AttributeType, raw: Vec<u8>) -> (decoded: Result<TypedValue, DecodeError>)
    ensures
        match decoded {
            Ok(value) => decode_spec(cel_type, raw@) == Ok::<TypedValueModel, DecodeError>(value@),
            Err(error) => decode_spec(cel_type, raw@) == Err::<TypedValueModel, DecodeError>(error),
        },
{
    match cel_type {
        AttributeType::String => match decode_text(raw.as_slice()) {
            Ok(text) => Ok(TypedValue::String(text)),
            Err(error) => Err(error),
        },
        AttributeType::Bytes => Ok(TypedValue::Bytes(raw)),
        AttributeType::Bool => if raw.len() == 1 {
            Ok(TypedValue::Bool(raw[0] != 0))
        } else {
            Err(DecodeError::WrongLength { expected: 1, actual: raw.len() })
        },
        AttributeType::Int | AttributeType::UInt | AttributeType::Float | AttributeType::Timestamp
            => if raw.len() == 8 {
            let word = word_of(&raw);
            Ok(
                match cel_type {
                    AttributeType::Int => TypedValue::Int(signed(word)),
                    AttributeType::UInt => TypedValue::UInt(word),
                    AttributeType::Float => TypedValue::Float(word),
                    _ => TypedValue::Timestamp(signed(word)),
                },
            )
        } else {
            Err(DecodeError::WrongLength { expected: 8, actual: raw.len() })
        },
        _ => Err(DecodeError::UnsupportedType(cel_type)),
    }
}

} // verus!
