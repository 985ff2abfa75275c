//! The primitive wire-type system: the closed enumeration of AMQP types and
//! the bidirectional, intentionally lossy mapping between each type and its
//! single-character wire tag.
//!
//! The mapping follows the RabbitMQ implementation rather than the formal
//! specification: `'s'` and `'U'` both read as `ShortInt` (the formal text
//! assigns `'s'` to `ShortString`), `'l'` and `'L'` both read as
//! `LongLongInt` (unsigned 64-bit is never distinguished on the wire), and
//! `ShortString` has no wire tag at all, so its inverse mapping yields the
//! sentinel `'_'`, which must never be written to the wire.

use vstd::prelude::*;

verus! {

/// Enumeration referencing all the available AMQP types
#[derive(Clone, Copy, Debug, PartialEq, Eq, Structural)]
pub enum AMQPType {
    /// A bool
    Boolean,
    /// An i8
    ShortShortInt,
    /// A u8
    ShortShortUInt,
    /// An i16
    ShortInt,
    /// A u16
    ShortUInt,
    /// An i32
    LongInt,
    /// A u32
    LongUInt,
    /// An i64
    LongLongInt,
    /// A u64
    LongLongUInt,
    /// A 32-bit floating-point number
    Float,
    /// A 64-bit floating-point number
    Double,
    /// A decimal value represented by a scale and a value
    DecimalValue,
    /// Deprecated, a String
    ShortString,
    /// A String
    LongString,
    /// An array of tagged values
    FieldArray,
    /// A timestamp (64-bit unsigned)
    Timestamp,
    /// An ordered map from name to tagged value
    FieldTable,
    /// An array of bytes, RabbitMQ specific
    ByteArray,
    /// No value
    Void,
}

/// The character returned by the inverse mapping for `ShortString`, which has
/// no valid wire tag; it must never be written to the wire.
pub const SENTINEL_TAG: char = '_';

/// The wire-tag table in the forward direction: which type, if any, a
/// single-character tag denotes. Characters outside the table map to `None`.
pub open spec fn spec_from_id(id: char) -> Option<AMQPType> {
    if id == 't' {
        Some(AMQPType::Boolean)
    } else if id == 'b' {
        Some(AMQPType::ShortShortInt)
    } else if id == 'B' {
        Some(AMQPType::ShortShortUInt)
    } else if id == 's' || id == 'U' {
        Some(AMQPType::ShortInt)
    } else if id == 'u' {
        Some(AMQPType::ShortUInt)
    } else if id == 'I' {
        Some(AMQPType::LongInt)
    } else if id == 'i' {
        Some(AMQPType::LongUInt)
    } else if id == 'L' || id == 'l' {
        Some(AMQPType::LongLongInt)
    } else if id == 'f' {
        Some(AMQPType::Float)
    } else if id == 'd' {
        Some(AMQPType::Double)
    } else if id == 'D' {
        Some(AMQPType::DecimalValue)
    } else if id == 'S' {
        Some(AMQPType::LongString)
    } else if id == 'A' {
        Some(AMQPType::FieldArray)
    } else if id == 'T' {
        Some(AMQPType::Timestamp)
    } else if id == 'F' {
        Some(AMQPType::FieldTable)
    } else if id == 'x' {
        Some(AMQPType::ByteArray)
    } else if id == 'V' {
        Some(AMQPType::Void)
    } else {
        None
    }
}

/// The wire-tag table in the inverse direction: the tag character produced
/// for each type. Total; `ShortString` yields the sentinel.
pub open spec fn spec_get_id(t: AMQPType) -> char {
    match t {
        AMQPType::Boolean => 't',
        AMQPType::ShortShortInt => 'b',
        AMQPType::ShortShortUInt => 'B',
        AMQPType::ShortInt => 's',
        AMQPType::ShortUInt => 'u',
        AMQPType::LongInt => 'I',
        AMQPType::LongUInt => 'i',
        AMQPType::LongLongInt => 'l',
        AMQPType::LongLongUInt => 'l',
        AMQPType::Float => 'f',
        AMQPType::Double => 'd',
        AMQPType::DecimalValue => 'D',
        AMQPType::ShortString => SENTINEL_TAG,
        AMQPType::LongString => 'S',
        AMQPType::FieldArray => 'A',
        AMQPType::Timestamp => 'T',
        AMQPType::FieldTable => 'F',
        AMQPType::ByteArray => 'x',
        AMQPType::Void => 'V',
    }
}

impl AMQPType {
    /// Get the AMQPType corresponding to the given id.
    /// We don't strictly follow the formal specification here but rather the
    /// RabbitMQ implementation: 's' means ShortInt (like 'U') instead of
    /// ShortString, and 'l' and 'L' both mean LongLongInt (no LongLongUInt).
    /// A character outside the table yields no match, never a failure.
    pub fn from_id(id: char) -> (r: Option<AMQPType>)
        ensures
            r == spec_from_id(id),
    {
        match id {
            't' => Some(AMQPType::Boolean),
            'b' => Some(AMQPType::ShortShortInt),
            'B' => Some(AMQPType::ShortShortUInt),
            's' | 'U' => Some(AMQPType::ShortInt),
            'u' => Some(AMQPType::ShortUInt),
            'I' => Some(AMQPType::LongInt),
            'i' => Some(AMQPType::LongUInt),
            'L' | 'l' => Some(AMQPType::LongLongInt),
            'f' => Some(AMQPType::Float),
            'd' => Some(AMQPType::Double),
            'D' => Some(AMQPType::DecimalValue),
            'S' => Some(AMQPType::LongString),
            'A' => Some(AMQPType::FieldArray),
            'T' => Some(AMQPType::Timestamp),
            'F' => Some(AMQPType::FieldTable),
            'x' => Some(AMQPType::ByteArray),
            'V' => Some(AMQPType::Void),
            _ => None,
        }
    }

    /// Get the id from an AMQPType.
    /// We don't strictly follow the formal specification here but rather the
    /// RabbitMQ implementation: ShortString doesn't have an id, we return '_'
    /// instead; ShortInt is supposed to be 'U' but we use 's'; LongLongUInt
    /// is supposed to be 'L' but we return 'l' as LongLongInt.
    pub fn get_id(&self) -> (r: char)
        ensures
            r == spec_get_id(*self),
    {
        match *self {
            AMQPType::Boolean => 't',
            AMQPType::ShortShortInt => 'b',
            AMQPType::ShortShortUInt => 'B',
            AMQPType::ShortInt => 's',
            AMQPType::ShortUInt => 'u',
            AMQPType::LongInt => 'I',
            AMQPType::LongUInt => 'i',
            AMQPType::LongLongInt | AMQPType::LongLongUInt => 'l',
            AMQPType::Float => 'f',
            AMQPType::Double => 'd',
            AMQPType::DecimalValue => 'D',
            AMQPType::ShortString => '_',
            AMQPType::LongString => 'S',
            AMQPType::FieldArray => 'A',
            AMQPType::Timestamp => 'T',
            AMQPType::FieldTable => 'F',
            AMQPType::ByteArray => 'x',
            AMQPType::Void => 'V',
        }
    }
}

/// The inverse lookup is total and always yields either a tag that the
/// forward lookup accepts or the `ShortString` sentinel, which the forward
/// lookup rejects.
pub proof fn lemma_get_id_total(t: AMQPType)
    ensures
        t == AMQPType::ShortString ==> spec_get_id(t) == SENTINEL_TAG,
        t != AMQPType::ShortString ==> spec_from_id(spec_get_id(t)) is Some,
        spec_from_id(SENTINEL_TAG) is None,
{
}

/// Round-trip: mapping a type to its tag and back yields the type again for
/// every variant except `LongLongUInt` (whose tag reads back as
/// `LongLongInt`) and `ShortString` (whose sentinel is not a valid tag).
pub proof fn lemma_round_trip(t: AMQPType)
    requires
        t != AMQPType::LongLongUInt,
        t != AMQPType::ShortString,
    ensures
        spec_from_id(spec_get_id(t)) == Some(t),
{
}

/// The two deliberate collapses of the round-trip: `LongLongInt` and
/// `LongLongUInt` share one tag, which always reads back as `LongLongInt`,
/// and the `ShortString` sentinel is accepted by no forward lookup.
pub proof fn lemma_collapses()
    ensures
        spec_get_id(AMQPType::LongLongInt) == spec_get_id(AMQPType::LongLongUInt),
        spec_from_id(spec_get_id(AMQPType::LongLongUInt)) == Some(AMQPType::LongLongInt),
        spec_get_id(AMQPType::ShortString) == SENTINEL_TAG,
        spec_from_id(SENTINEL_TAG) is None,
{
}

/// The symbolic name of each variant, used for diagnostics and generated
/// identifiers, never for wire encoding.
pub open spec fn spec_type_name(t: AMQPType) -> Seq<char> {
    match t {
        AMQPType::Boolean => "Boolean"@,
        AMQPType::ShortShortInt => "ShortShortInt"@,
        AMQPType::ShortShortUInt => "ShortShortUInt"@,
        AMQPType::ShortInt => "ShortInt"@,
        AMQPType::ShortUInt => "ShortUInt"@,
        AMQPType::LongInt => "LongInt"@,
        AMQPType::LongUInt => "LongUInt"@,
        AMQPType::LongLongInt => "LongLongInt"@,
        AMQPType::LongLongUInt => "LongLongUInt"@,
        AMQPType::Float => "Float"@,
        AMQPType::Double => "Double"@,
        AMQPType::DecimalValue => "DecimalValue"@,
        AMQPType::ShortString => "ShortString"@,
        AMQPType::LongString => "LongString"@,
        AMQPType::FieldArray => "FieldArray"@,
        AMQPType::Timestamp => "Timestamp"@,
        AMQPType::FieldTable => "FieldTable"@,
        AMQPType::ByteArray => "ByteArray"@,
        AMQPType::Void => "Void"@,
    }
}

impl AMQPType {
    /// Render the variant's identifier text verbatim, e.g. "Boolean".
    pub fn to_string(&self) -> (r: String)
        ensures
            r@ == spec_type_name(*self),
    {
        match *self {
            AMQPType::Boolean => "Boolean".to_owned(),
            AMQPType::ShortShortInt => "ShortShortInt".to_owned(),
            AMQPType::ShortShortUInt => "ShortShortUInt".to_owned(),
            AMQPType::ShortInt => "ShortInt".to_owned(),
            AMQPType::ShortUInt => "ShortUInt".to_owned(),
            AMQPType::LongInt => "LongInt".to_owned(),
            AMQPType::LongUInt => "LongUInt".to_owned(),
            AMQPType::LongLongInt => "LongLongInt".to_owned(),
            AMQPType::LongLongUInt => "LongLongUInt".to_owned(),
            AMQPType::Float => "Float".to_owned(),
            AMQPType::Double => "Double".to_owned(),
            AMQPType::DecimalValue => "DecimalValue".to_owned(),
            AMQPType::ShortString => "ShortString".to_owned(),
            AMQPType::LongString => "LongString".to_owned(),
            AMQPType::FieldArray => "FieldArray".to_owned(),
            AMQPType::Timestamp => "Timestamp".to_owned(),
            AMQPType::FieldTable => "FieldTable".to_owned(),
            AMQPType::ByteArray => "ByteArray".to_owned(),
            AMQPType::Void => "Void".to_owned(),
        }
    }
}

/// A Decimal value composed of a scale and a value
#[derive(Clone, Copy, Debug, PartialEq, Eq, Structural)]
pub struct DecimalValue {
    /// The scale of the value
    pub scale: u8,
    /// The actual value
    pub value: u32,
}

} // verus!
