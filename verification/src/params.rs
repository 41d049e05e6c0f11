//! Decoding one parameter of a token: a decimal literal within a range, a hexadecimal
//! literal, or a constant label resolved through the constant map.

use crate::constants::{is_constant_label, is_label, LocalConstMap};
use crate::errors::{outcome, ParsingError, ParsingErrorView};
use crate::felt::MODULUS;
use crate::literals::{
    decode_decimal, decode_hex, decoding, hex_decoding, Decoded, Endianness, HEX_CHUNK_SIZE,
};
use crate::token::{token_text, Token};
use vstd::prelude::*;
use vstd::string::*;

verus! {

/// Reason given for a parameter that is not a decimal number.
pub open spec fn not_decimal_reason(text: Seq<char>) -> Seq<char> {
    "parameter '"@ + text + "' is not a decimal number"@
}

/// Reason given for hexadecimal text that is not a number.
pub open spec fn not_hex_reason(hex: Seq<char>) -> Seq<char> {
    "hex string '"@ + hex + "' is not a hexadecimal number"@
}

/// Reason given for a single hexadecimal value of more than one chunk.
pub open spec fn hex_too_long_reason(hex: Seq<char>) -> Seq<char> {
    "hex string '"@ + hex + "' contains more than 16 characters"@
}

/// Reason given for a little-endian chunk that is not one chunk long.
pub open spec fn hex_chunk_reason(hex: Seq<char>) -> Seq<char> {
    "hex string chunk '"@ + hex + "' must contain exactly 16 characters"@
}

/// The error for a value of the parameter at `idx` outside `min..=max`.
pub open spec fn out_of_range(parts: Seq<Seq<char>>, idx: int, min: u64, max: u64)
    -> ParsingErrorView {
    ParsingErrorView::OutOfRange { op: token_text(parts), param_idx: idx, min, max }
}

/// The error for a malformed parameter at `idx`.
pub open spec fn invalid_param(parts: Seq<Seq<char>>, idx: int, reason: Seq<char>)
    -> ParsingErrorView {
    ParsingErrorView::InvalidParam { op: token_text(parts), param_idx: idx, reason }
}

/// `value` if it lies within `min..=max`, else the range error for the parameter at `idx`.
pub open spec fn within(parts: Seq<Seq<char>>, idx: int, value: u64, min: u64, max: u64)
    -> Result<u64, ParsingErrorView> {
    if min <= value && value <= max {
        Ok(value)
    } else {
        Err(out_of_range(parts, idx, min, max))
    }
}

/// The value of the parameter at `idx` read as a decimal integer within `min..=max`.
/// Text that is not a decimal integer is malformed; an integer outside the range, however
/// large, is out of range.
pub open spec fn checked_param(parts: Seq<Seq<char>>, idx: int, min: u64, max: u64) -> Result<
    u64,
    ParsingErrorView,
> {
    match decoding(parts[idx], 10) {
        Decoded::NotANumber => Err(invalid_param(parts, idx, not_decimal_reason(parts[idx]))),
        Decoded::TooLarge => Err(out_of_range(parts, idx, min, max)),
        Decoded::Value(value) => within(parts, idx, value, min, max),
    }
}

/// The field element that the hexadecimal digits `hex` of the parameter at `idx` denote.
/// A big-endian value has at most one chunk of digits, a little-endian value exactly one.
pub open spec fn hex_param(parts: Seq<Seq<char>>, hex: Seq<char>, idx: int, endianness: Endianness)
    -> Result<u64, ParsingErrorView> {
    if endianness == Endianness::Big && hex.len() > HEX_CHUNK_SIZE {
        Err(invalid_param(parts, idx, hex_too_long_reason(hex)))
    } else if endianness == Endianness::Little && hex.len() != HEX_CHUNK_SIZE {
        Err(invalid_param(parts, idx, hex_chunk_reason(hex)))
    } else {
        match hex_decoding(hex, endianness) {
            Decoded::NotANumber => Err(invalid_param(parts, idx, not_hex_reason(hex))),
            Decoded::TooLarge => Err(out_of_range(parts, idx, 0, (MODULUS - 1) as u64)),
            Decoded::Value(value) => within(parts, idx, value, 0, (MODULUS - 1) as u64),
        }
    }
}

/// The value of the parameter at `idx` when it is not hexadecimal: a constant label
/// stands for its value in `constants`, anything else is read as a decimal integer.
/// Either way the value must lie within `min..=max`.
pub open spec fn resolved_param(
    parts: Seq<Seq<char>>,
    constants: Map<Seq<char>, u64>,
    idx: int,
    min: u64,
    max: u64,
) -> Result<u64, ParsingErrorView> {
    if is_constant_label(parts[idx]) {
        if constants.contains_key(parts[idx]) {
            within(parts, idx, constants[parts[idx]], min, max)
        } else {
            Err(ParsingErrorView::ConstNotFound { op: token_text(parts), param_idx: idx })
        }
    } else {
        checked_param(parts, idx, min, max)
    }
}

/// The text `before`, `literal` and `after` in one string.
fn reason_text(before: &str, literal: &str, after: &str) -> (reason: String)
    ensures
        reason@ == before@ + literal@ + after@,
{
    let mut reason: String = String::from_str(before);
    reason.append(literal);
    reason.append(after);
    reason
}

/// `value` if it lies within `min..=max`, else a range error.
fn check_range(op: &Token, param_idx: usize, value: u64, min: u64, max: u64) -> (r: Result<
    u64,
    ParsingError,
>)
    ensures
        outcome(r) == within(op@, param_idx as int, value, min, max),
{
    if min <= value && value <= max {
        Ok(value)
    } else {
        Err(ParsingError::out_of_range(op, param_idx, min, max))
    }
}

/// Parses the parameter at `param_idx` as a decimal integer within `min..=max`.
pub fn parse_checked_param(op: &Token, param_idx: usize, min: u64, max: u64) -> (r: Result<
    u64,
    ParsingError,
>)
    requires
        param_idx < op@.len(),
    ensures
        outcome(r) == checked_param(op@, param_idx as int, min, max),
{
    let text: &str = op.part(param_idx);
    match decode_decimal(text) {
        Decoded::NotANumber => {
            let reason: String = reason_text("parameter '", text, "' is not a decimal number");
            Err(ParsingError::invalid_param(op, param_idx, reason))
        },
        Decoded::TooLarge => Err(ParsingError::out_of_range(op, param_idx, min, max)),
        Decoded::Value(value) => check_range(op, param_idx, value, min, max),
    }
}

/// Parses the hexadecimal digits `hex_str` (without prefix) of the parameter at
/// `param_idx` into the value of a field element.
pub fn parse_hex_value(op: &Token, hex_str: &str, param_idx: usize, endianness: Endianness) -> (r:
    Result<u64, ParsingError>)
    ensures
        outcome(r) == hex_param(op@, hex_str@, param_idx as int, endianness),
{
    let len: usize = hex_str.unicode_len();
    match endianness {
        Endianness::Big => {
            if len > HEX_CHUNK_SIZE {
                let reason: String = reason_text(
                    "hex string '",
                    hex_str,
                    "' contains more than 16 characters",
                );
                return Err(ParsingError::invalid_param(op, param_idx, reason));
            }
        },
        Endianness::Little => {
            if len != HEX_CHUNK_SIZE {
                let reason: String = reason_text(
                    "hex string chunk '",
                    hex_str,
                    "' must contain exactly 16 characters",
                );
                return Err(ParsingError::invalid_param(op, param_idx, reason));
            }
        },
    }
    match decode_hex(hex_str, endianness) {
        Decoded::NotANumber => {
            let reason: String = reason_text(
                "hex string '",
                hex_str,
                "' is not a hexadecimal number",
            );
            Err(ParsingError::invalid_param(op, param_idx, reason))
        },
        Decoded::TooLarge => Err(ParsingError::out_of_range(op, param_idx, 0, MODULUS - 1)),
        Decoded::Value(value) => check_range(op, param_idx, value, 0, MODULUS - 1),
    }
}

/// Parses the parameter at `param_idx`, which has no hexadecimal prefix: a constant
/// label is looked up in `constants`, any other text is parsed as a decimal integer.
pub fn parse_non_hex_param_with_constants_lookup(
    op: &Token,
    constants: &LocalConstMap,
    param_idx: usize,
    min: u64,
    max: u64,
) -> (r: Result<u64, ParsingError>)
    requires
        param_idx < op@.len(),
    ensures
        outcome(r) == resolved_param(op@, constants@, param_idx as int, min, max),
{
    let text: &str = op.part(param_idx);
    if is_label(text) {
        match constants.get(text) {
            Some(value) => check_range(op, param_idx, value, min, max),
            None => Err(ParsingError::const_not_found(op, param_idx)),
        }
    } else {
        parse_checked_param(op, param_idx, min, max)
    }
}

/// `e` is an error about the parameter at `idx`: the parameter is malformed, names a
/// constant that is not defined, or has a value out of range.
pub open spec fn is_param_error(e: ParsingErrorView, idx: int) -> bool {
    match e {
        ParsingErrorView::InvalidParam { param_idx, .. } => param_idx == idx,
        ParsingErrorView::ConstNotFound { param_idx, .. } => param_idx == idx,
        ParsingErrorView::OutOfRange { param_idx, .. } => param_idx == idx,
        _ => false,
    }
}

/// A parameter without hexadecimal prefix that was decoded lies within the range asked
/// for, and one that was not is refused with an error about that parameter.
pub proof fn lemma_plain_param_outcomes(
    parts: Seq<Seq<char>>,
    constants: Map<Seq<char>, u64>,
    idx: int,
    min: u64,
    max: u64,
)
    ensures
        checked_param(parts, idx, min, max) matches Ok(v) ==> min <= v <= max,
        checked_param(parts, idx, min, max) matches Err(e) ==> is_param_error(e, idx),
        resolved_param(parts, constants, idx, min, max) matches Ok(v) ==> min <= v <= max,
        resolved_param(parts, constants, idx, min, max) matches Err(e) ==> is_param_error(e, idx),
{
}

/// Hexadecimal digits that were decoded are the value of a field element, and digits
/// that were not are refused with an error about their parameter.
pub proof fn lemma_hex_param_outcomes(
    parts: Seq<Seq<char>>,
    hex: Seq<char>,
    idx: int,
    endianness: Endianness,
)
    ensures
        hex_param(parts, hex, idx, endianness) matches Ok(v) ==> v < MODULUS,
        hex_param(parts, hex, idx, endianness) matches Err(e) ==> is_param_error(e, idx),
{
}

/// A parameter that is not a constant label is decoded without the constant map: it
/// is read as a decimal integer whatever the map holds.
pub proof fn lemma_literal_ignores_constants(
    parts: Seq<Seq<char>>,
    constants: Map<Seq<char>, u64>,
    idx: int,
    min: u64,
    max: u64,
)
    requires
        !is_constant_label(parts[idx]),
    ensures
        resolved_param(parts, constants, idx, min, max) == checked_param(parts, idx, min, max),
{
}

/// A constant label stands for its value in the map when that value is in range, and
/// is refused as not found exactly when the map does not define it.
pub proof fn lemma_label_is_looked_up(
    parts: Seq<Seq<char>>,
    constants: Map<Seq<char>, u64>,
    idx: int,
    min: u64,
    max: u64,
)
    requires
        is_constant_label(parts[idx]),
    ensures
        constants.contains_key(parts[idx]) && min <= constants[parts[idx]] <= max
            ==> resolved_param(parts, constants, idx, min, max) == Ok::<u64, ParsingErrorView>(
            constants[parts[idx]],
        ),
        resolved_param(parts, constants, idx, min, max) matches Err(e) ==> (e is ConstNotFound
            <==> !constants.contains_key(parts[idx])),
{
}

} // verus!
