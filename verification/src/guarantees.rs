//! What the parsers guarantee for every token: facts about the outcome of `push` and of
//! the instructions with one optional operand, proved for all inputs.

use crate::constants::{is_constant_label, lemma_numbers_are_not_labels};
use crate::errors::ParsingErrorView;
use crate::felt::{MODULUS, WORD_SIZE};
use crate::io_ops::{
    address_param, adv_push, extra_param, hex_chunk, index_param, long_hex_reason,
    long_hex_values, missing_param, push, push_param, push_params, ADVICE_READ_LIMIT, MAX_FELT,
    MAX_PUSH_PARTS,
};
use crate::literals::{decimal_value, has_hex_prefix, is_decimal, Endianness, HEX_CHUNK_SIZE};
use crate::nodes::{InstructionView, NodeView};
use crate::params::{
    hex_param, invalid_param, is_param_error, lemma_hex_param_outcomes,
    lemma_plain_param_outcomes, out_of_range,
};
use crate::token::token_text;
use crate::width::{
    lemma_collect_first_error, lemma_collect_values, lemma_list_errors, push_many, push_one,
};
use vstd::prelude::*;

verus! {

/// A `push` is refused for want of a parameter exactly when the mnemonic stands alone,
/// and for a parameter too many exactly when it has more than the largest number of
/// values. Any other error is about one of its parameters.
pub proof fn lemma_push_arity(parts: Seq<Seq<char>>, constants: Map<Seq<char>, u64>)
    requires
        parts.len() >= 1,
    ensures
        parts.len() == 1 <==> push(parts, constants) == Err::<NodeView, ParsingErrorView>(
            missing_param(parts, "push.<a?>"@),
        ),
        parts.len() > MAX_PUSH_PARTS <==> push(parts, constants) == Err::<
            NodeView,
            ParsingErrorView,
        >(extra_param(parts)),
        push(parts, constants) matches Err(e) ==> (e is MissingParam <==> parts.len() == 1) && (
        e is ExtraParam <==> parts.len() > MAX_PUSH_PARTS),
{
    if parts.len() == 2 {
        let hex = parts[1].skip(2);
        lemma_plain_param_outcomes(parts, constants, 1, 0, MAX_FELT);
        lemma_hex_param_outcomes(parts, hex, 1, Endianness::Big);
        if has_hex_prefix(parts[1]) && hex.len() > HEX_CHUNK_SIZE && hex.len() == HEX_CHUNK_SIZE
            * WORD_SIZE {
            lemma_list_errors(long_hex_values(parts, hex));
            assert forall|k: int| 0 <= k < WORD_SIZE implies (#[trigger] long_hex_values(
                parts,
                hex,
            )[k] matches Err(e) ==> is_param_error(e, 1)) by {
                lemma_hex_param_outcomes(parts, hex_chunk(hex, k), 1, Endianness::Little);
            }
        }
    } else if 2 < parts.len() <= MAX_PUSH_PARTS {
        let results = push_params(parts, constants);
        lemma_list_errors(results);
        assert forall|k: int| 0 <= k < results.len() implies (#[trigger] results[k] matches Err(
            e,
        ) ==> is_param_error(e, k + 1)) by {
            lemma_plain_param_outcomes(parts, constants, k + 1, 0, MAX_FELT);
            lemma_hex_param_outcomes(parts, parts[k + 1].skip(2), k + 1, Endianness::Big);
        }
    }
}

/// A `push` of one decimal integer succeeds exactly when the integer is below the field
/// modulus, and then pushes that integer; at the modulus and above it is out of range.
pub proof fn lemma_push_decimal(parts: Seq<Seq<char>>, constants: Map<Seq<char>, u64>)
    requires
        parts.len() == 2,
        is_decimal(parts[1]),
    ensures
        decimal_value(parts[1]) < MODULUS ==> push(parts, constants) == Ok::<
            NodeView,
            ParsingErrorView,
        >(NodeView::Instruction(push_one(decimal_value(parts[1]) as u64))),
        decimal_value(parts[1]) >= MODULUS ==> push(parts, constants) == Err::<
            NodeView,
            ParsingErrorView,
        >(out_of_range(parts, 1, 0, MAX_FELT)),
        decimal_value(parts[1]) == MODULUS - 1 ==> push(parts, constants) == Ok::<
            NodeView,
            ParsingErrorView,
        >(NodeView::Instruction(InstructionView::PushFelt(MAX_FELT))),
{
    lemma_numbers_are_not_labels(parts[1]);
}

/// A parameter of a `push` that is a number, decimal or hexadecimal, is decoded without
/// the constant map.
pub proof fn lemma_push_number_ignores_constants(
    parts: Seq<Seq<char>>,
    constants: Map<Seq<char>, u64>,
    others: Map<Seq<char>, u64>,
    idx: int,
)
    requires
        is_decimal(parts[idx]) || has_hex_prefix(parts[idx]),
    ensures
        push_param(parts, constants, idx) == push_param(parts, others, idx),
{
    lemma_numbers_are_not_labels(parts[idx]);
}

/// A `push` of one constant label pushes the constant's value when the map defines it
/// as a field element, and is refused as not found when the map does not define it.
pub proof fn lemma_push_constant(parts: Seq<Seq<char>>, constants: Map<Seq<char>, u64>)
    requires
        parts.len() == 2,
        is_constant_label(parts[1]),
    ensures
        constants.contains_key(parts[1]) && constants[parts[1]] < MODULUS ==> push(
            parts,
            constants,
        ) == Ok::<NodeView, ParsingErrorView>(
            NodeView::Instruction(push_one(constants[parts[1]])),
        ),
        !constants.contains_key(parts[1]) ==> push(parts, constants) == Err::<
            NodeView,
            ParsingErrorView,
        >(ParsingErrorView::ConstNotFound { op: token_text(parts), param_idx: 1 }),
{
}

/// A hexadecimal literal of more than one chunk must be four chunks long. It is then
/// cut into four chunks of 16 digits, each decoded by itself as a little-endian field
/// element: the push is that of the four values in the order of the chunks, or the
/// error of the first chunk that is refused.
pub proof fn lemma_long_hex_push(parts: Seq<Seq<char>>, constants: Map<Seq<char>, u64>)
    requires
        parts.len() == 2,
        has_hex_prefix(parts[1]),
        parts[1].len() - 2 > HEX_CHUNK_SIZE,
    ensures
        parts[1].len() - 2 != 64 ==> push(parts, constants) == Err::<NodeView, ParsingErrorView>(
            invalid_param(parts, 1, long_hex_reason(parts[1].skip(2))),
        ),
        parts[1].len() - 2 == 64 ==> ({
            let hex = parts[1].skip(2);
            let chunks = long_hex_values(parts, hex);
            &&& hex == hex_chunk(hex, 0) + hex_chunk(hex, 1) + hex_chunk(hex, 2) + hex_chunk(hex, 3)
            &&& chunks.len() == 4
            &&& forall|k: int|
                0 <= k < 4 ==> hex_chunk(hex, k).len() == 16 && #[trigger] chunks[k] == hex_param(
                    parts,
                    hex_chunk(hex, k),
                    1,
                    Endianness::Little,
                )
            &&& (forall|k: int| 0 <= k < 4 ==> (#[trigger] chunks[k]) is Ok) ==> push(
                parts,
                constants,
            ) == Ok::<NodeView, ParsingErrorView>(
                NodeView::Instruction(
                    push_many(
                        seq![chunks[0]->Ok_0, chunks[1]->Ok_0, chunks[2]->Ok_0, chunks[3]->Ok_0],
                    ),
                ),
            )
            &&& forall|k: int|
                0 <= k < 4 && (#[trigger] chunks[k]) is Err && (forall|j: int|
                    0 <= j < k ==> (#[trigger] chunks[j]) is Ok) ==> push(parts, constants) == Err::<
                    NodeView,
                    ParsingErrorView,
                >(chunks[k]->Err_0)
        }),
{
    let hex = parts[1].skip(2);
    if hex.len() == 64 {
        let chunks = long_hex_values(parts, hex);
        assert(hex =~= hex_chunk(hex, 0) + hex_chunk(hex, 1) + hex_chunk(hex, 2) + hex_chunk(
            hex,
            3,
        ));
        if forall|k: int| 0 <= k < 4 ==> (#[trigger] chunks[k]) is Ok {
            lemma_collect_values(chunks);
            assert(chunks.map_values(|r: Result<u64, ParsingErrorView>| r->Ok_0)
                =~= seq![chunks[0]->Ok_0, chunks[1]->Ok_0, chunks[2]->Ok_0, chunks[3]->Ok_0]);
        }
        assert forall|k: int|
            0 <= k < 4 && (#[trigger] chunks[k]) is Err && (forall|j: int|
                0 <= j < k ==> (#[trigger] chunks[j]) is Ok) implies push(parts, constants) == Err::<
            NodeView,
            ParsingErrorView,
        >(chunks[k]->Err_0) by {
            lemma_collect_first_error(chunks, k);
        }
    }
}

/// An instruction on a procedure local is refused for want of a parameter exactly when
/// the mnemonic stands alone, and for a parameter too many exactly when it has more
/// than one.
pub proof fn lemma_index_arity(
    parts: Seq<Seq<char>>,
    constants: Map<Seq<char>, u64>,
    usage: Seq<char>,
)
    requires
        parts.len() >= 1,
    ensures
        parts.len() == 1 <==> index_param(parts, constants, usage) == Err::<u16, ParsingErrorView>(
            missing_param(parts, usage),
        ),
        parts.len() > 2 <==> index_param(parts, constants, usage) == Err::<u16, ParsingErrorView>(
            extra_param(parts),
        ),
{
    lemma_plain_param_outcomes(parts, constants, 1, 0, u16::MAX as u64);
}

/// A memory instruction stands without an address when the mnemonic stands alone, and
/// is refused for a parameter too many exactly when it has more than one.
pub proof fn lemma_address_arity(parts: Seq<Seq<char>>, constants: Map<Seq<char>, u64>)
    requires
        parts.len() >= 1,
    ensures
        parts.len() == 1 <==> address_param(parts, constants) == Ok::<
            Option<u32>,
            ParsingErrorView,
        >(None),
        parts.len() > 2 <==> address_param(parts, constants) == Err::<
            Option<u32>,
            ParsingErrorView,
        >(extra_param(parts)),
{
    lemma_plain_param_outcomes(parts, constants, 1, 0, u32::MAX as u64);
}

/// An `adv_push` is refused for want of a parameter exactly when the mnemonic stands
/// alone, and for a parameter too many exactly when it has more than one. With one
/// parameter that is a constant defined as a number from 1 to the read limit, it reads
/// that many values.
pub proof fn lemma_adv_push_count(parts: Seq<Seq<char>>, constants: Map<Seq<char>, u64>)
    requires
        parts.len() >= 1,
    ensures
        parts.len() == 1 <==> adv_push(parts, constants) == Err::<NodeView, ParsingErrorView>(
            missing_param(parts, "adv_push.<num_vals>"@),
        ),
        parts.len() > 2 <==> adv_push(parts, constants) == Err::<NodeView, ParsingErrorView>(
            extra_param(parts),
        ),
        parts.len() == 2 && is_constant_label(parts[1]) && constants.contains_key(parts[1]) && 1
            <= constants[parts[1]] <= ADVICE_READ_LIMIT ==> adv_push(parts, constants) == Ok::<
            NodeView,
            ParsingErrorView,
        >(NodeView::Instruction(InstructionView::AdvPush(constants[parts[1]] as u8))),
        adv_push(parts, constants) matches Ok(node) ==> node matches NodeView::Instruction(
            InstructionView::AdvPush(count),
        ) && 1 <= count <= ADVICE_READ_LIMIT,
{
    lemma_plain_param_outcomes(parts, constants, 1, 1, ADVICE_READ_LIMIT as u64);
}

} // verus!
