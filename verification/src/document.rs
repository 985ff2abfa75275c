//! The mathematical model of a parsed structured document: a tree of plain
//! values. The outside parser's `Value` is opaque to the model; the trusted
//! accessors in `json` state what they return in terms of this model, so
//! everything the loader decides about a document is pinned down over it.

use vstd::prelude::*;

verus! {

/// A parsed document value as plain values: null, a boolean, an unsigned
/// 64-bit integer, some other number (negative or fractional; the loader
/// never reads one), a text, an array, or an object as its entries in order
/// (keys unique after parsing).
pub enum JsonModel {
    /// The null value
    Null,
    /// A boolean value
    Bool(bool),
    /// A number representable as an unsigned 64-bit integer
    UInt(u64),
    /// Any other number; the loader reads none
    NumOther,
    /// A text value
    Text(Seq<char>),
    /// An array of values, in order
    Array(Seq<JsonModel>),
    /// An object: its entries, keys unique
    Object(Seq<(Seq<char>, JsonModel)>),
}

/// The value under the first entry with the given key, if any.
pub open spec fn assoc_lookup(entries: Seq<(Seq<char>, JsonModel)>, key: Seq<char>) -> Option<
    JsonModel,
>
    decreases entries.len(),
{
    if entries.len() == 0 {
        None
    } else if entries.first().0 == key {
        Some(entries.first().1)
    } else {
        assoc_lookup(entries.drop_first(), key)
    }
}

/// Key lookup on a document value: the entry of an object under the key;
/// nothing on any other value.
pub open spec fn json_get_spec(m: JsonModel, key: Seq<char>) -> Option<JsonModel> {
    match m {
        JsonModel::Object(entries) => assoc_lookup(entries, key),
        _ => None,
    }
}

/// A looked-up value, or null where the lookup found nothing.
pub open spec fn or_null(o: Option<JsonModel>) -> JsonModel {
    match o {
        Some(m) => m,
        None => JsonModel::Null,
    }
}

} // verus!
