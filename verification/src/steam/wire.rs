//! Numbers as they arrive in a JSON document: as a number or as text.

use crate::steam::decimal::{parse_unsigned, unsigned_upto};
use vstd::prelude::*;

verus! {

/// What a JSON document holds under one key, as far as decoding a number
/// needs to know it.
#[derive(Debug, Clone)]
pub enum WireValue {
    /// The document is not a JSON object, or the object has no such member.
    Absent,
    /// A number that is an integer from 0 to 2^64 - 1.
    Unsigned(u64),
    /// A number that is an integer below 0 and not below -2^63.
    Negative(i64),
    /// A string.
    Text(String),
    /// Anything else: a number with a fraction or out of these ranges,
    /// a boolean, null, an array, an object.
    Other,
}

/// The mathematical content of a `WireValue`.
pub enum WireModel {
    Absent,
    Unsigned(u64),
    Negative(i64),
    Text(Seq<char>),
    Other,
}

impl View for WireValue {
    type V = WireModel;

    open spec fn view(&self) -> WireModel {
        match self {
            WireValue::Absent => WireModel::Absent,
            WireValue::Unsigned(n) => WireModel::Unsigned(*n),
            WireValue::Negative(n) => WireModel::Negative(*n),
            WireValue::Text(text) => WireModel::Text(text@),
            WireValue::Other => WireModel::Other,
        }
    }
}

/// Why a member is not the number that was asked for.
#[derive(Debug, Clone, Copy, PartialEq, Eq, Structural)]
pub enum WireError {
    /// There is no such member.
    Missing,
    /// A number, but negative, with a fraction, or too large.
    LargeOrNegative,
    /// A string that does not write a number of the range in decimal.
    NotANumber,
    /// Neither a number nor a string.
    UnsupportedType,
}

/// What `serde_json` finds under `key` in `document`: `Absent` unless
/// `document` parses as one JSON value that is an object with a member `key`;
/// else that member, told apart as the variants of `WireModel` say.
pub uninterp spec fn json_member(document: Seq<u8>, key: Seq<char>) -> WireModel;

/// Parses `document` with `serde_json::from_slice` into a `serde_json::Value`
/// and looks `key` up in it. Trusted: the result is the one function of the
/// two arguments that `json_member` names.
#[verifier::external_body]
pub(crate) fn read_member(document: &[u8], key: &str) -> (value: WireValue)
    ensures
        value@ == json_member(document@, key@),
{
    let Ok(serde_json::Value::Object(members)) = serde_json::from_slice::<serde_json::Value>(
        document,
    ) else {
        return WireValue::Absent;
    };
    match members.get(key) {
        None => WireValue::Absent,
        Some(serde_json::Value::String(text)) => WireValue::Text(text.clone()),
        Some(serde_json::Value::Number(number)) => match (number.as_u64(), number.as_i64()) {
            (Some(n), _) => WireValue::Unsigned(n),
            (None, Some(n)) => WireValue::Negative(n),
            (None, None) => WireValue::Other,
        },
        Some(_) => WireValue::Other,
    }
}

/// The unsigned number of at most `max` that a member stands for: itself
/// where it is such a number, what it writes in decimal where it is text.
pub open spec fn wire_unsigned(value: WireModel, max: u64) -> Result<u64, WireError> {
    match value {
        WireModel::Absent => Err(WireError::Missing),
        WireModel::Unsigned(n) => if n <= max {
            Ok(n)
        } else {
            Err(WireError::LargeOrNegative)
        },
        WireModel::Negative(_) => Err(WireError::LargeOrNegative),
        WireModel::Text(text) => match unsigned_upto(text, max) {
            Some(n) => Ok(n),
            None => Err(WireError::NotANumber),
        },
        WireModel::Other => Err(WireError::UnsupportedType),
    }
}

/// The 32-bit number that a member stands for.
pub open spec fn wire_u32(value: WireModel) -> Result<u32, WireError> {
    match wire_unsigned(value, u32::MAX as u64) {
        Ok(n) => Ok(n as u32),
        Err(e) => Err(e),
    }
}

/// The instant, in seconds since the Unix epoch, that a member stands for.
/// Only a number does, and only an integer that fits 64 signed bits.
pub open spec fn wire_timestamp(value: WireModel) -> Result<i64, WireError> {
    match value {
        WireModel::Absent => Err(WireError::Missing),
        WireModel::Unsigned(n) => if n <= i64::MAX as u64 {
            Ok(n as i64)
        } else {
            Err(WireError::LargeOrNegative)
        },
        WireModel::Negative(n) => Ok(n),
        WireModel::Text(_) => Err(WireError::UnsupportedType),
        WireModel::Other => Err(WireError::UnsupportedType),
    }
}

fn decode_unsigned(value: &WireValue, max: u64) -> (decoded: Result<u64, WireError>)
    ensures
        decoded == wire_unsigned(value@, max),
{
    match value {
        WireValue::Absent => Err(WireError::Missing),
        WireValue::Unsigned(n) => if *n <= max {
            Ok(*n)
        } else {
            Err(WireError::LargeOrNegative)
        },
        WireValue::Negative(_) => Err(WireError::LargeOrNegative),
        WireValue::Text(text) => match parse_unsigned(text.as_str(), max) {
            Some(n) => Ok(n),
            None => Err(WireError::NotANumber),
        },
        WireValue::Other => Err(WireError::UnsupportedType),
    }
}

/// Decodes a 64-bit identifier that came as a number or as decimal text.
pub fn deserialize_u64(value: &WireValue) -> (decoded: Result<u64, WireError>)
    ensures
        decoded == wire_unsigned(value@, u64::MAX),
{
    decode_unsigned(value, u64::MAX)
}

/// Decodes a 32-bit identifier that came as a number or as decimal text.
pub fn deserialize_u32(value: &WireValue) -> (decoded: Result<u32, WireError>)
    ensures
        decoded == wire_u32(value@),
{
    match decode_unsigned(value, 0xffff_ffff) {
        Ok(n) => Ok(n as u32),
        Err(e) => Err(e),
    }
}

/// Decodes an instant that came as a whole number of seconds.
pub fn deserialize_timestamp(value: &WireValue) -> (decoded: Result<i64, WireError>)
    ensures
        decoded == wire_timestamp(value@),
{
    match value {
        WireValue::Absent => Err(WireError::Missing),
        WireValue::Unsigned(n) => if *n <= 0x7fff_ffff_ffff_ffff {
            Ok(*n as i64)
        } else {
            Err(WireError::LargeOrNegative)
        },
        WireValue::Negative(n) => Ok(*n),
        WireValue::Text(_) => Err(WireError::UnsupportedType),
        WireValue::Other => Err(WireError::UnsupportedType),
    }
}

} // verus!
