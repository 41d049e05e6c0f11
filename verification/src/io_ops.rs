//! Parsers for the instructions that take an immediate operand: `push`, the loads and
//! stores of memory and of procedure locals, `locaddr` and `adv_push`.
//!
//! For each instruction a `spec` function over the token's text says what the token gives,
//! a node or an error, and the parser is proved to return exactly that.

use crate::constants::LocalConstMap;
use crate::errors::{outcome, ParsingError, ParsingErrorView};
use crate::felt::{MODULUS, WORD_SIZE};
use crate::literals::{has_hex_prefix, strip_hex_prefix, Endianness, HEX_CHUNK_SIZE};
use crate::nodes::{Instruction, InstructionView, Node, NodeView};
use crate::params::{
    hex_param, invalid_param, parse_hex_value, parse_non_hex_param_with_constants_lookup,
    resolved_param,
};
use crate::token::{token_text, Token};
use crate::width::{
    build_push_many_instruction, build_push_one_instruction, collect, lemma_collect_first_error,
    node_outcome, outcomes, push_many_outcome, push_one,
};
use vstd::prelude::*;
use vstd::string::*;

verus! {

/// The largest number of values one `push` takes.
pub const MAX_PUSH_INPUTS: usize = 16;

/// The largest number of parts of a `push` token: the mnemonic and its values.
pub const MAX_PUSH_PARTS: usize = MAX_PUSH_INPUTS + 1;

/// The largest number of values one `adv_push` reads.
pub const ADVICE_READ_LIMIT: u8 = 16;

/// The largest value of a field element.
pub const MAX_FELT: u64 = MODULUS - 1;

/// The error for an instruction without the parameter it needs.
pub open spec fn missing_param(parts: Seq<Seq<char>>, usage: Seq<char>) -> ParsingErrorView {
    ParsingErrorView::MissingParam { op: token_text(parts), usage }
}

/// The error for an instruction with too many parameters.
pub open spec fn extra_param(parts: Seq<Seq<char>>) -> ParsingErrorView {
    ParsingErrorView::ExtraParam { op: token_text(parts) }
}

/// Reason given for a long hexadecimal literal that is not four chunks long.
pub open spec fn long_hex_reason(hex: Seq<char>) -> Seq<char> {
    "long hex string '"@ + hex + "' must contain exactly 64 characters"@
}

/// The value of the parameter at `idx` of a `push`: with a hexadecimal prefix it is one
/// big-endian chunk, without one a constant or a decimal integer. Either way it is a
/// field element.
pub open spec fn push_param(parts: Seq<Seq<char>>, constants: Map<Seq<char>, u64>, idx: int)
    -> Result<u64, ParsingErrorView> {
    if has_hex_prefix(parts[idx]) {
        hex_param(parts, parts[idx].skip(2), idx, Endianness::Big)
    } else {
        resolved_param(parts, constants, idx, 0, MAX_FELT)
    }
}

/// The values of all parameters of a `push`, in order.
pub open spec fn push_params(parts: Seq<Seq<char>>, constants: Map<Seq<char>, u64>) -> Seq<
    Result<u64, ParsingErrorView>,
> {
    Seq::new((parts.len() - 1) as nat, |k: int| push_param(parts, constants, k + 1))
}

/// The chunk at position `k` of the hexadecimal digits `hex`.
pub open spec fn hex_chunk(hex: Seq<char>, k: int) -> Seq<char> {
    hex.subrange(HEX_CHUNK_SIZE * k, HEX_CHUNK_SIZE * k + HEX_CHUNK_SIZE)
}

/// The values of the four chunks of the long hexadecimal literal `hex`, each chunk read
/// by itself, little-endian, in the order in which the chunks are written.
pub open spec fn long_hex_values(parts: Seq<Seq<char>>, hex: Seq<char>) -> Seq<
    Result<u64, ParsingErrorView>,
> {
    Seq::new(
        WORD_SIZE as nat,
        |k: int| hex_param(parts, hex_chunk(hex, k), 1, Endianness::Little),
    )
}

/// What a `push` of the long hexadecimal literal `hex` gives.
pub open spec fn long_hex_push(parts: Seq<Seq<char>>, hex: Seq<char>) -> Result<
    NodeView,
    ParsingErrorView,
> {
    if hex.len() != HEX_CHUNK_SIZE * WORD_SIZE {
        Err(invalid_param(parts, 1, long_hex_reason(hex)))
    } else {
        push_many_outcome(long_hex_values(parts, hex))
    }
}

/// What a `push` of one decoded value gives.
pub open spec fn single_push(value: Result<u64, ParsingErrorView>) -> Result<
    NodeView,
    ParsingErrorView,
> {
    match value {
        Ok(v) => Ok(NodeView::Instruction(push_one(v))),
        Err(e) => Err(e),
    }
}

/// What parsing the `push` token `parts` gives.
pub open spec fn push(parts: Seq<Seq<char>>, constants: Map<Seq<char>, u64>) -> Result<
    NodeView,
    ParsingErrorView,
> {
    if parts.len() == 1 {
        Err(missing_param(parts, "push.<a?>"@))
    } else if parts.len() == 2 {
        if has_hex_prefix(parts[1]) && parts[1].len() - 2 > HEX_CHUNK_SIZE {
            long_hex_push(parts, parts[1].skip(2))
        } else {
            single_push(push_param(parts, constants, 1))
        }
    } else if parts.len() <= MAX_PUSH_PARTS {
        push_many_outcome(push_params(parts, constants))
    } else {
        Err(extra_param(parts))
    }
}

/// The index of a procedure local given to an instruction that needs one: a constant
/// or a decimal integer of 16 bits, as the token's only parameter.
pub open spec fn index_param(
    parts: Seq<Seq<char>>,
    constants: Map<Seq<char>, u64>,
    usage: Seq<char>,
) -> Result<u16, ParsingErrorView> {
    if parts.len() == 1 {
        Err(missing_param(parts, usage))
    } else if parts.len() == 2 {
        match resolved_param(parts, constants, 1, 0, u16::MAX as u64) {
            Ok(value) => Ok(value as u16),
            Err(e) => Err(e),
        }
    } else {
        Err(extra_param(parts))
    }
}

/// The memory address given to an instruction that may take one: none, or a constant or
/// a decimal integer of 32 bits as the token's only parameter.
pub open spec fn address_param(parts: Seq<Seq<char>>, constants: Map<Seq<char>, u64>) -> Result<
    Option<u32>,
    ParsingErrorView,
> {
    if parts.len() == 1 {
        Ok(None)
    } else if parts.len() == 2 {
        match resolved_param(parts, constants, 1, 0, u32::MAX as u64) {
            Ok(value) => Ok(Some(value as u32)),
            Err(e) => Err(e),
        }
    } else {
        Err(extra_param(parts))
    }
}

/// The node of an instruction on the procedure local `index`.
pub open spec fn index_node(
    index: Result<u16, ParsingErrorView>,
    with_index: spec_fn(u16) -> InstructionView,
) -> Result<NodeView, ParsingErrorView> {
    match index {
        Ok(i) => Ok(NodeView::Instruction(with_index(i))),
        Err(e) => Err(e),
    }
}

/// The node of a memory instruction: `bare` without an address, else the instruction
/// with the address as its immediate operand.
pub open spec fn address_node(
    address: Result<Option<u32>, ParsingErrorView>,
    bare: InstructionView,
    with_address: spec_fn(u32) -> InstructionView,
) -> Result<NodeView, ParsingErrorView> {
    match address {
        Ok(None) => Ok(NodeView::Instruction(bare)),
        Ok(Some(a)) => Ok(NodeView::Instruction(with_address(a))),
        Err(e) => Err(e),
    }
}

/// What parsing the `locaddr` token `parts` gives.
pub open spec fn locaddr(parts: Seq<Seq<char>>, constants: Map<Seq<char>, u64>) -> Result<
    NodeView,
    ParsingErrorView,
> {
    index_node(
        index_param(parts, constants, "locaddr.<index>"@),
        |i: u16| InstructionView::Locaddr(i),
    )
}

/// What parsing the `adv_push` token `parts` gives: the number of values to read is a
/// constant or a decimal integer from 1 to the read limit.
pub open spec fn adv_push(parts: Seq<Seq<char>>, constants: Map<Seq<char>, u64>) -> Result<
    NodeView,
    ParsingErrorView,
> {
    if parts.len() == 1 {
        Err(missing_param(parts, "adv_push.<num_vals>"@))
    } else if parts.len() == 2 {
        match resolved_param(parts, constants, 1, 1, ADVICE_READ_LIMIT as u64) {
            Ok(value) => Ok(NodeView::Instruction(InstructionView::AdvPush(value as u8))),
            Err(e) => Err(e),
        }
    } else {
        Err(extra_param(parts))
    }
}

/// What parsing the `mem_load` token `parts` gives.
pub open spec fn mem_load(parts: Seq<Seq<char>>, constants: Map<Seq<char>, u64>) -> Result<
    NodeView,
    ParsingErrorView,
> {
    address_node(
        address_param(parts, constants),
        InstructionView::MemLoad,
        |a: u32| InstructionView::MemLoadImm(a),
    )
}

/// What parsing the `loc_load` token `parts` gives.
pub open spec fn loc_load(parts: Seq<Seq<char>>, constants: Map<Seq<char>, u64>) -> Result<
    NodeView,
    ParsingErrorView,
> {
    index_node(
        index_param(parts, constants, "loc_load.<index>"@),
        |i: u16| InstructionView::LocLoad(i),
    )
}

/// What parsing the `mem_loadw` token `parts` gives.
pub open spec fn mem_loadw(parts: Seq<Seq<char>>, constants: Map<Seq<char>, u64>) -> Result<
    NodeView,
    ParsingErrorView,
> {
    address_node(
        address_param(parts, constants),
        InstructionView::MemLoadW,
        |a: u32| InstructionView::MemLoadWImm(a),
    )
}

/// What parsing the `loc_loadw` token `parts` gives.
pub open spec fn loc_loadw(parts: Seq<Seq<char>>, constants: Map<Seq<char>, u64>) -> Result<
    NodeView,
    ParsingErrorView,
> {
    index_node(
        index_param(parts, constants, "loc_loadw.<index>"@),
        |i: u16| InstructionView::LocLoadW(i),
    )
}

/// What parsing the `mem_store` token `parts` gives.
pub open spec fn mem_store(parts: Seq<Seq<char>>, constants: Map<Seq<char>, u64>) -> Result<
    NodeView,
    ParsingErrorView,
> {
    address_node(
        address_param(parts, constants),
        InstructionView::MemStore,
        |a: u32| InstructionView::MemStoreImm(a),
    )
}

/// What parsing the `loc_store` token `parts` gives.
pub open spec fn loc_store(parts: Seq<Seq<char>>, constants: Map<Seq<char>, u64>) -> Result<
    NodeView,
    ParsingErrorView,
> {
    index_node(
        index_param(parts, constants, "loc_store.<index>"@),
        |i: u16| InstructionView::LocStore(i),
    )
}

/// What parsing the `mem_storew` token `parts` gives.
pub open spec fn mem_storew(parts: Seq<Seq<char>>, constants: Map<Seq<char>, u64>) -> Result<
    NodeView,
    ParsingErrorView,
> {
    address_node(
        address_param(parts, constants),
        InstructionView::MemStoreW,
        |a: u32| InstructionView::MemStoreWImm(a),
    )
}

/// What parsing the `loc_storew` token `parts` gives.
pub open spec fn loc_storew(parts: Seq<Seq<char>>, constants: Map<Seq<char>, u64>) -> Result<
    NodeView,
    ParsingErrorView,
> {
    index_node(
        index_param(parts, constants, "loc_storew.<index>"@),
        |i: u16| InstructionView::LocStoreW(i),
    )
}

/// Returns one of the push instruction nodes.
pub fn parse_push(op: &Token, constants: &LocalConstMap) -> (r: Result<Node, ParsingError>)
    requires
        op@[0] == "push"@,
    ensures
        node_outcome(r) == push(op@, constants@),
{
    let n: usize = op.num_parts();
    if n == 1 {
        Err(ParsingError::missing_param(op, "push.<a?>"))
    } else if n == 2 {
        parse_single_param(op, constants)
    } else if n <= MAX_PUSH_PARTS {
        parse_param_list(op, constants)
    } else {
        Err(ParsingError::extra_param(op))
    }
}

/// Parses a `push` with a single value.
fn parse_single_param(op: &Token, constants: &LocalConstMap) -> (r: Result<Node, ParsingError>)
    requires
        op@.len() == 2,
    ensures
        node_outcome(r) == push(op@, constants@),
{
    let text: &str = op.part(1);
    let value: u64 = match strip_hex_prefix(text) {
        Some(hex_str) => {
            if hex_str.unicode_len() > HEX_CHUNK_SIZE {
                return parse_long_hex_param(op, hex_str);
            }
            match parse_hex_value(op, hex_str, 1, Endianness::Big) {
                Ok(value) => value,
                Err(e) => {
                    return Err(e);
                },
            }
        },
        None => match parse_non_hex_param_with_constants_lookup(op, constants, 1, 0, MAX_FELT) {
            Ok(value) => value,
            Err(e) => {
                return Err(e);
            },
        },
    };
    build_push_one_instruction(value)
}

/// Parses the parameters of a `push` with several values, each decimal, hexadecimal or
/// a constant, into the narrowest push instruction for the list.
pub fn parse_param_list(op: &Token, constants: &LocalConstMap) -> (r: Result<Node, ParsingError>)
    requires
        op@.len() >= 2,
    ensures
        node_outcome(r) == push_many_outcome(push_params(op@, constants@)),
{
    let n: usize = op.num_parts();
    let ghost expected = push_params(op@, constants@);
    let mut values: Vec<Result<u64, ParsingError>> = Vec::new();
    let mut failed: bool = false;
    let mut idx: usize = 1;
    while idx < n && !failed
        invariant
            n == op@.len(),
            expected == push_params(op@, constants@),
            1 <= idx <= n,
            values@.len() == idx - 1,
            forall|j: int| 0 <= j < values@.len() ==> outcome(#[trigger] values@[j]) == expected[j],
            forall|j: int|
                0 <= j < values@.len() - 1 ==> (#[trigger] values@[j]) is Ok,
            failed ==> values@.len() > 0 && values@.last() is Err,
            !failed ==> forall|j: int| 0 <= j < values@.len() ==> (#[trigger] values@[j]) is Ok,
        decreases n - idx + (if failed { 0int } else { 1int }),
    {
        let value: Result<u64, ParsingError> = match strip_hex_prefix(op.part(idx)) {
            Some(hex_str) => parse_hex_value(op, hex_str, idx, Endianness::Big),
            None => parse_non_hex_param_with_constants_lookup(op, constants, idx, 0, MAX_FELT),
        };
        failed = value.is_err();
        values.push(value);
        idx += 1;
    }
    proof {
        lemma_prefix_outcome(outcomes(values@), expected);
    }
    build_push_many_instruction(values)
}

/// Parses a hexadecimal literal of 64 digits into four field elements, one for each
/// chunk of 16 digits, and returns the narrowest push instruction for them.
pub fn parse_long_hex_param(op: &Token, hex_str: &str) -> (r: Result<Node, ParsingError>)
    ensures
        node_outcome(r) == long_hex_push(op@, hex_str@),
{
    if hex_str.unicode_len() != HEX_CHUNK_SIZE * WORD_SIZE {
        let mut reason: String = String::from_str("long hex string '");
        reason.append(hex_str);
        reason.append("' must contain exactly 64 characters");
        return Err(ParsingError::invalid_param(op, 1, reason));
    }
    let ghost expected = long_hex_values(op@, hex_str@);
    let mut values: Vec<Result<u64, ParsingError>> = Vec::new();
    let mut failed: bool = false;
    let mut k: usize = 0;
    while k < WORD_SIZE && !failed
        invariant
            hex_str@.len() == HEX_CHUNK_SIZE * WORD_SIZE,
            expected == long_hex_values(op@, hex_str@),
            k <= WORD_SIZE,
            values@.len() == k,
            forall|j: int| 0 <= j < values@.len() ==> outcome(#[trigger] values@[j]) == expected[j],
            forall|j: int|
                0 <= j < values@.len() - 1 ==> (#[trigger] values@[j]) is Ok,
            failed ==> values@.len() > 0 && values@.last() is Err,
            !failed ==> forall|j: int| 0 <= j < values@.len() ==> (#[trigger] values@[j]) is Ok,
        decreases WORD_SIZE - k + (if failed { 0int } else { 1int }),
    {
        let chunk: &str = hex_str.substring_char(
            HEX_CHUNK_SIZE * k,
            HEX_CHUNK_SIZE * k + HEX_CHUNK_SIZE,
        );
        let value: Result<u64, ParsingError> = parse_hex_value(op, chunk, 1, Endianness::Little);
        failed = value.is_err();
        values.push(value);
        k += 1;
    }
    proof {
        lemma_prefix_outcome(outcomes(values@), expected);
    }
    build_push_many_instruction(values)
}

/// A list decoded up to its first error gives what the whole list gives.
proof fn lemma_prefix_outcome(
    decoded: Seq<Result<u64, ParsingErrorView>>,
    all: Seq<Result<u64, ParsingErrorView>>,
)
    requires
        0 < decoded.len() <= all.len(),
        forall|j: int| 0 <= j < decoded.len() ==> (#[trigger] decoded[j]) == all[j],
        forall|j: int| 0 <= j < decoded.len() - 1 ==> (#[trigger] decoded[j]) is Ok,
        decoded.last() is Ok ==> decoded.len() == all.len(),
    ensures
        collect(decoded) == collect(all),
        forall|j: int|
            0 <= j < decoded.len() ==> ((#[trigger] decoded[j]) matches Ok(value) ==> all[j]
                == Ok::<u64, ParsingErrorView>(value)),
{
    if decoded.last() is Ok {
        assert(decoded =~= all);
    } else {
        let at = decoded.len() - 1;
        assert forall|j: int| 0 <= j < at implies (#[trigger] all[j]) is Ok by {
            assert(decoded[j] is Ok);
        }
        lemma_collect_first_error(decoded, at);
        lemma_collect_first_error(all, at);
    }
}

/// Returns the `Locaddr` instruction node.
pub fn parse_locaddr(op: &Token, constants: &LocalConstMap) -> (r: Result<Node, ParsingError>)
    requires
        op@[0] == "locaddr"@,
    ensures
        node_outcome(r) == locaddr(op@, constants@),
{
    match parse_index(op, constants, "locaddr.<index>") {
        Ok(index) => Ok(Node::Instruction(Instruction::Locaddr(index))),
        Err(e) => Err(e),
    }
}

/// Returns the `AdvPush` instruction node.
pub fn parse_adv_push(op: &Token, constants: &LocalConstMap) -> (r: Result<Node, ParsingError>)
    requires
        op@[0] == "adv_push"@,
    ensures
        node_outcome(r) == adv_push(op@, constants@),
{
    let n: usize = op.num_parts();
    if n == 1 {
        Err(ParsingError::missing_param(op, "adv_push.<num_vals>"))
    } else if n == 2 {
        match parse_non_hex_param_with_constants_lookup(
            op,
            constants,
            1,
            1,
            ADVICE_READ_LIMIT as u64,
        ) {
            Ok(value) => Ok(Node::Instruction(Instruction::AdvPush(value as u8))),
            Err(e) => Err(e),
        }
    } else {
        Err(ParsingError::extra_param(op))
    }
}

/// Returns the `MemLoad` instruction node if no address is given, and the `MemLoadImm`
/// instruction node otherwise.
pub fn parse_mem_load(op: &Token, constants: &LocalConstMap) -> (r: Result<Node, ParsingError>)
    requires
        op@[0] == "mem_load"@,
    ensures
        node_outcome(r) == mem_load(op@, constants@),
{
    match parse_address(op, constants) {
        Ok(None) => Ok(Node::Instruction(Instruction::MemLoad)),
        Ok(Some(address)) => Ok(Node::Instruction(Instruction::MemLoadImm(address))),
        Err(e) => Err(e),
    }
}

/// Returns the `LocLoad` instruction node.
pub fn parse_loc_load(op: &Token, constants: &LocalConstMap) -> (r: Result<Node, ParsingError>)
    requires
        op@[0] == "loc_load"@,
    ensures
        node_outcome(r) == loc_load(op@, constants@),
{
    match parse_index(op, constants, "loc_load.<index>") {
        Ok(index) => Ok(Node::Instruction(Instruction::LocLoad(index))),
        Err(e) => Err(e),
    }
}

/// Returns the `MemLoadW` instruction node if no address is given, and the `MemLoadWImm`
/// instruction node otherwise.
pub fn parse_mem_loadw(op: &Token, constants: &LocalConstMap) -> (r: Result<Node, ParsingError>)
    requires
        op@[0] == "mem_loadw"@,
    ensures
        node_outcome(r) == mem_loadw(op@, constants@),
{
    match parse_address(op, constants) {
        Ok(None) => Ok(Node::Instruction(Instruction::MemLoadW)),
        Ok(Some(address)) => Ok(Node::Instruction(Instruction::MemLoadWImm(address))),
        Err(e) => Err(e),
    }
}

/// Returns the `LocLoadW` instruction node.
pub fn parse_loc_loadw(op: &Token, constants: &LocalConstMap) -> (r: Result<Node, ParsingError>)
    requires
        op@[0] == "loc_loadw"@,
    ensures
        node_outcome(r) == loc_loadw(op@, constants@),
{
    match parse_index(op, constants, "loc_loadw.<index>") {
        Ok(index) => Ok(Node::Instruction(Instruction::LocLoadW(index))),
        Err(e) => Err(e),
    }
}

/// Returns the `MemStore` instruction node if no address is given, and the `MemStoreImm`
/// instruction node otherwise.
pub fn parse_mem_store(op: &Token, constants: &LocalConstMap) -> (r: Result<Node, ParsingError>)
    requires
        op@[0] == "mem_store"@,
    ensures
        node_outcome(r) == mem_store(op@, constants@),
{
    match parse_address(op, constants) {
        Ok(None) => Ok(Node::Instruction(Instruction::MemStore)),
        Ok(Some(address)) => Ok(Node::Instruction(Instruction::MemStoreImm(address))),
        Err(e) => Err(e),
    }
}

/// Returns the `LocStore` instruction node.
pub fn parse_loc_store(op: &Token, constants: &LocalConstMap) -> (r: Result<Node, ParsingError>)
    requires
        op@[0] == "loc_store"@,
    ensures
        node_outcome(r) == loc_store(op@, constants@),
{
    match parse_index(op, constants, "loc_store.<index>") {
        Ok(index) => Ok(Node::Instruction(Instruction::LocStore(index))),
        Err(e) => Err(e),
    }
}

/// Returns the `MemStoreW` instruction node if no address is given, and the `MemStoreWImm`
/// instruction node otherwise.
pub fn parse_mem_storew(op: &Token, constants: &LocalConstMap) -> (r: Result<Node, ParsingError>)
    requires
        op@[0] == "mem_storew"@,
    ensures
        node_outcome(r) == mem_storew(op@, constants@),
{
    match parse_address(op, constants) {
        Ok(None) => Ok(Node::Instruction(Instruction::MemStoreW)),
        Ok(Some(address)) => Ok(Node::Instruction(Instruction::MemStoreWImm(address))),
        Err(e) => Err(e),
    }
}

/// Returns the `LocStoreW` instruction node.
pub fn parse_loc_storew(op: &Token, constants: &LocalConstMap) -> (r: Result<Node, ParsingError>)
    requires
        op@[0] == "loc_storew"@,
    ensures
        node_outcome(r) == loc_storew(op@, constants@),
{
    match parse_index(op, constants, "loc_storew.<index>") {
        Ok(index) => Ok(Node::Instruction(Instruction::LocStoreW(index))),
        Err(e) => Err(e),
    }
}

/// Parses the index of a procedure local, the only parameter of `op`.
fn parse_index(op: &Token, constants: &LocalConstMap, usage: &str) -> (r: Result<
    u16,
    ParsingError,
>)
    ensures
        outcome(r) == index_param(op@, constants@, usage@),
{
    let n: usize = op.num_parts();
    if n == 1 {
        Err(ParsingError::missing_param(op, usage))
    } else if n == 2 {
        match parse_non_hex_param_with_constants_lookup(op, constants, 1, 0, 0xffff) {
            Ok(value) => Ok(value as u16),
            Err(e) => Err(e),
        }
    } else {
        Err(ParsingError::extra_param(op))
    }
}

/// Parses the memory address that `op` may have as its only parameter.
fn parse_address(op: &Token, constants: &LocalConstMap) -> (r: Result<Option<u32>, ParsingError>)
    ensures
        outcome(r) == address_param(op@, constants@),
{
    let n: usize = op.num_parts();
    if n == 1 {
        Ok(None)
    } else if n == 2 {
        match parse_non_hex_param_with_constants_lookup(op, constants, 1, 0, 0xffff_ffff) {
            Ok(value) => Ok(Some(value as u32)),
            Err(e) => Err(e),
        }
    } else {
        Err(ParsingError::extra_param(op))
    }
}

} // verus!
