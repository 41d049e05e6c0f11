//! Choosing the narrowest push instruction that holds a value or a list of values.

use crate::errors::{outcome, ParsingError, ParsingErrorView};
use crate::felt::{Felt, MODULUS, WORD_SIZE};
use crate::nodes::{felt_values, Instruction, InstructionView, Node, NodeView};
use vstd::prelude::*;

verus! {

/// A result of parsing with node and error taken by their views.
pub open spec fn node_outcome(r: Result<Node, ParsingError>) -> Result<NodeView, ParsingErrorView> {
    match r {
        Ok(node) => Ok(node@),
        Err(e) => Err(e@),
    }
}

/// The push instruction for the single value `value`: the narrowest of 8, 16 and 32
/// bits that holds it, and a field element when none of them does.
pub open spec fn push_one(value: u64) -> InstructionView {
    if value <= u8::MAX {
        InstructionView::PushU8(value as u8)
    } else if value <= u16::MAX {
        InstructionView::PushU16(value as u16)
    } else if value <= u32::MAX {
        InstructionView::PushU32(value as u32)
    } else {
        InstructionView::PushFelt(value)
    }
}

/// The largest of `values`, and 0 when there is none.
pub open spec fn max_value(values: Seq<u64>) -> u64
    decreases values.len(),
{
    if values.len() == 0 {
        0
    } else {
        let rest = max_value(values.drop_last());
        if values.last() > rest {
            values.last()
        } else {
            rest
        }
    }
}

/// The push instruction for the list `values`: one width for the whole list, the
/// narrowest of 8, 16 and 32 bits that holds the largest value. When none of them does
/// the values are field elements, a word if there are exactly four of them.
pub open spec fn push_many(values: Seq<u64>) -> InstructionView {
    let max = max_value(values);
    if max <= u8::MAX {
        InstructionView::PushU8List(values.map_values(|v: u64| v as u8))
    } else if max <= u16::MAX {
        InstructionView::PushU16List(values.map_values(|v: u64| v as u16))
    } else if max <= u32::MAX {
        InstructionView::PushU32List(values.map_values(|v: u64| v as u32))
    } else if values.len() == WORD_SIZE {
        InstructionView::PushWord(values)
    } else {
        InstructionView::PushFeltList(values)
    }
}

/// The values of `results` in order, or the first error among them.
pub open spec fn collect(results: Seq<Result<u64, ParsingErrorView>>) -> Result<
    Seq<u64>,
    ParsingErrorView,
>
    decreases results.len(),
{
    if results.len() == 0 {
        Ok(Seq::empty())
    } else {
        match collect(results.drop_last()) {
            Err(e) => Err(e),
            Ok(values) => match results.last() {
                Err(e) => Err(e),
                Ok(value) => Ok(values.push(value)),
            },
        }
    }
}

/// The push instruction for a list of decoded values, or the first error in the list.
pub open spec fn push_many_outcome(results: Seq<Result<u64, ParsingErrorView>>) -> Result<
    NodeView,
    ParsingErrorView,
> {
    match collect(results) {
        Err(e) => Err(e),
        Ok(values) => Ok(NodeView::Instruction(push_many(values))),
    }
}

/// `bits` is the width of a push operand: 8, 16 or 32 bits, or 64 for a field element.
pub open spec fn is_width(bits: nat) -> bool {
    bits == 8 || bits == 16 || bits == 32 || bits == 64
}

/// `value` can be held in an operand of width `bits`.
pub open spec fn fits(value: u64, bits: nat) -> bool {
    if bits == 8 {
        value <= u8::MAX
    } else if bits == 16 {
        value <= u16::MAX
    } else if bits == 32 {
        value <= u32::MAX
    } else {
        value < MODULUS
    }
}

/// Every one of `values` can be held in an operand of width `bits`.
pub open spec fn all_fit(values: Seq<u64>, bits: nat) -> bool {
    forall|i: int| 0 <= i < values.len() ==> fits(#[trigger] values[i], bits)
}

/// The width of the operands of a push instruction.
pub open spec fn operand_bits(instruction: InstructionView) -> nat {
    match instruction {
        InstructionView::PushU8(_) | InstructionView::PushU8List(_) => 8,
        InstructionView::PushU16(_) | InstructionView::PushU16List(_) => 16,
        InstructionView::PushU32(_) | InstructionView::PushU32List(_) => 32,
        InstructionView::PushFelt(_)
        | InstructionView::PushFeltList(_)
        | InstructionView::PushWord(_) => 64,
        _ => 0,
    }
}

/// The values that a push instruction pushes, in order.
pub open spec fn pushed_values(instruction: InstructionView) -> Seq<u64> {
    match instruction {
        InstructionView::PushU8(v) => seq![v as u64],
        InstructionView::PushU16(v) => seq![v as u64],
        InstructionView::PushU32(v) => seq![v as u64],
        InstructionView::PushFelt(v) => seq![v],
        InstructionView::PushU8List(list) => list.map_values(|v: u8| v as u64),
        InstructionView::PushU16List(list) => list.map_values(|v: u16| v as u64),
        InstructionView::PushU32List(list) => list.map_values(|v: u32| v as u64),
        InstructionView::PushFeltList(list) => list,
        InstructionView::PushWord(word) => word,
        _ => Seq::empty(),
    }
}

/// The instruction chosen for a single field element pushes that value, in an operand
/// that holds it, and no narrower operand would hold it.
pub proof fn lemma_single_width_is_minimal(value: u64)
    requires
        value < MODULUS,
    ensures
        pushed_values(push_one(value)) == seq![value],
        is_width(operand_bits(push_one(value))),
        fits(value, operand_bits(push_one(value))),
        forall|bits: nat|
            is_width(bits) && bits < operand_bits(push_one(value)) ==> !#[trigger] fits(
                value,
                bits,
            ),
{
}

/// The instruction chosen for a list of field elements pushes those values in their
/// order, in operands of one width that holds each of them, and no narrower width would
/// hold them all. It is a word exactly when there are four values and 32 bits do not
/// hold them all, and a list of field elements when 32 bits do not hold them all and
/// there are not four.
pub proof fn lemma_list_width_is_minimal(values: Seq<u64>)
    requires
        values.len() > 0,
        forall|i: int| 0 <= i < values.len() ==> (#[trigger] values[i]) < MODULUS,
    ensures
        pushed_values(push_many(values)) == values,
        is_width(operand_bits(push_many(values))),
        all_fit(values, operand_bits(push_many(values))),
        forall|bits: nat|
            is_width(bits) && bits < operand_bits(push_many(values)) ==> !#[trigger] all_fit(
                values,
                bits,
            ),
        push_many(values) is PushWord <==> values.len() == WORD_SIZE && !all_fit(values, 32),
        push_many(values) is PushFeltList <==> values.len() != WORD_SIZE && !all_fit(values, 32),
        !(push_many(values) is PushU8) && !(push_many(values) is PushU16) && !(push_many(
            values,
        ) is PushU32) && !(push_many(values) is PushFelt),
{
    let max = max_value(values);
    let at = lemma_max_value_occurs(values);
    assert forall|i: int| 0 <= i < values.len() implies (#[trigger] values[i]) <= max by {
        lemma_max_value_bounds(values, i);
    }
    assert(all_fit(values, operand_bits(push_many(values))));
    assert forall|bits: nat|
        is_width(bits) && bits < operand_bits(push_many(values)) implies !#[trigger] all_fit(
        values,
        bits,
    ) by {
        assert(!fits(values[at], bits));
    }
    if max <= u32::MAX {
        assert(all_fit(values, 32));
    } else {
        assert(!fits(values[at], 32));
    }
    let pushed = pushed_values(push_many(values));
    assert(pushed =~= values);
}

/// No value is larger than the largest.
pub proof fn lemma_max_value_bounds(values: Seq<u64>, i: int)
    requires
        0 <= i < values.len(),
    ensures
        values[i] <= max_value(values),
    decreases values.len(),
{
    if i < values.len() - 1 {
        lemma_max_value_bounds(values.drop_last(), i);
    }
}

/// The largest value of a list that is not empty is one of its values.
pub proof fn lemma_max_value_occurs(values: Seq<u64>) -> (i: int)
    requires
        values.len() > 0,
    ensures
        0 <= i < values.len(),
        values[i] == max_value(values),
    decreases values.len(),
{
    if values.len() == 1 {
        assert(max_value(values.drop_last()) == 0);
        0
    } else if values.last() > max_value(values.drop_last()) {
        values.len() - 1
    } else {
        lemma_max_value_occurs(values.drop_last())
    }
}

/// An error that no error precedes is what collecting gives, whatever follows it.
pub proof fn lemma_collect_first_error(results: Seq<Result<u64, ParsingErrorView>>, i: int)
    requires
        0 <= i < results.len(),
        results[i] is Err,
        forall|j: int| 0 <= j < i ==> (#[trigger] results[j]) is Ok,
    ensures
        collect(results) == Err::<Seq<u64>, ParsingErrorView>(results[i]->Err_0),
    decreases results.len(),
{
    if i == results.len() - 1 {
        lemma_collect_values(results.drop_last());
    } else {
        lemma_collect_first_error(results.drop_last(), i);
    }
}

/// Without an error, collecting gives every value in order.
pub proof fn lemma_collect_values(results: Seq<Result<u64, ParsingErrorView>>)
    requires
        forall|j: int| 0 <= j < results.len() ==> (#[trigger] results[j]) is Ok,
    ensures
        collect(results) == Ok::<Seq<u64>, ParsingErrorView>(
            results.map_values(|r: Result<u64, ParsingErrorView>| r->Ok_0),
        ),
    decreases results.len(),
{
    let values = results.map_values(|r: Result<u64, ParsingErrorView>| r->Ok_0);
    if results.len() == 0 {
        assert(values =~= Seq::<u64>::empty());
    } else {
        lemma_collect_values(results.drop_last());
        let front = results.drop_last().map_values(|r: Result<u64, ParsingErrorView>| r->Ok_0);
        assert(results.last() is Ok);
        assert(front.push(results.last()->Ok_0) =~= values);
    }
}

/// Determines the narrowest push instruction for `value`.
pub fn build_push_one_instruction(value: u64) -> (r: Result<Node, ParsingError>)
    requires
        value < MODULUS,
    ensures
        node_outcome(r) == Ok::<NodeView, ParsingErrorView>(NodeView::Instruction(push_one(value))),
{
    if value <= 0xff {
        Ok(Node::Instruction(Instruction::PushU8(value as u8)))
    } else if value <= 0xffff {
        Ok(Node::Instruction(Instruction::PushU16(value as u16)))
    } else if value <= 0xffff_ffff {
        Ok(Node::Instruction(Instruction::PushU32(value as u32)))
    } else {
        Ok(Node::Instruction(Instruction::PushFelt(Felt::new(value))))
    }
}

/// Decoded values with their errors taken by their views.
pub open spec fn outcomes(results: Seq<Result<u64, ParsingError>>) -> Seq<
    Result<u64, ParsingErrorView>,
> {
    results.map_values(|r: Result<u64, ParsingError>| outcome(r))
}

/// The values of `results` in order, or the first error among them.
fn collect_values(results: Vec<Result<u64, ParsingError>>) -> (r: Result<Vec<u64>, ParsingError>)
    ensures
        match r {
            Ok(values) => collect(outcomes(results@)) == Ok::<Seq<u64>, ParsingErrorView>(values@),
            Err(e) => collect(outcomes(results@)) == Err::<Seq<u64>, ParsingErrorView>(e@),
        },
{
    let ghost all = results@;
    let mut values: Vec<u64> = Vec::new();
    for result in iter: results
        invariant
            iter.seq() == all,
            values@.len() == iter.index(),
            forall|j: int| 0 <= j < iter.index() ==> (#[trigger] all[j]) == Ok::<u64, ParsingError>(
                values@[j],
            ),
    {
        match result {
            Ok(value) => {
                values.push(value);
            },
            Err(e) => {
                proof {
                    let at = iter.index() as int;
                    assert(outcomes(all)[at] is Err);
                    assert forall|j: int| 0 <= j < at implies (#[trigger] outcomes(all)[j]) is Ok by {
                        assert(all[j] is Ok);
                    }
                    lemma_collect_first_error(outcomes(all), at);
                }
                return Err(e);
            },
        }
    }
    proof {
        assert forall|j: int| 0 <= j < all.len() implies (#[trigger] outcomes(all)[j]) is Ok by {
            assert(all[j] is Ok);
        }
        lemma_collect_values(outcomes(all));
        assert(values@ =~= outcomes(all).map_values(|r: Result<u64, ParsingErrorView>| r->Ok_0)) by {
            assert forall|j: int| 0 <= j < all.len() implies values@[j] == outcomes(all)[j]->Ok_0 by {
                assert(all[j] == Ok::<u64, ParsingError>(values@[j]));
            }
        }
    }
    Ok(values)
}

/// The largest of `values`.
fn largest(values: &Vec<u64>) -> (max: u64)
    ensures
        max == max_value(values@),
{
    let n: usize = values.len();
    let mut max: u64 = 0;
    let mut i: usize = 0;
    while i < n
        invariant
            n == values@.len(),
            i <= n,
            max == max_value(values@.take(i as int)),
        decreases n - i,
    {
        proof {
            assert(values@.take(i + 1).drop_last() =~= values@.take(i as int));
        }
        if values[i] > max {
            max = values[i];
        }
        i += 1;
    }
    proof {
        assert(values@.take(n as int) =~= values@);
    }
    max
}

/// Determines the narrowest push instruction for the list `values`.
fn build_push_list(values: &Vec<u64>) -> (node: Node)
    requires
        forall|i: int| 0 <= i < values@.len() ==> (#[trigger] values@[i]) < MODULUS,
    ensures
        node@ == NodeView::Instruction(push_many(values@)),
{
    let n: usize = values.len();
    let max: u64 = largest(values);
    proof {
        assert forall|i: int| 0 <= i < n implies (#[trigger] values@[i]) <= max by {
            lemma_max_value_bounds(values@, i);
        }
    }
    if max <= 0xff {
        let mut list: Vec<u8> = Vec::new();
        let mut i: usize = 0;
        while i < n
            invariant
                n == values@.len(),
                i <= n,
                max <= 0xff,
                forall|j: int| 0 <= j < n ==> (#[trigger] values@[j]) <= max,
                list@.len() == i,
                forall|j: int| 0 <= j < i ==> (#[trigger] list@[j]) == values@[j] as u8,
            decreases n - i,
        {
            list.push(values[i] as u8);
            i += 1;
        }
        assert(list@ =~= values@.map_values(|v: u64| v as u8));
        Node::Instruction(Instruction::PushU8List(list))
    } else if max <= 0xffff {
        let mut list: Vec<u16> = Vec::new();
        let mut i: usize = 0;
        while i < n
            invariant
                n == values@.len(),
                i <= n,
                max <= 0xffff,
                forall|j: int| 0 <= j < n ==> (#[trigger] values@[j]) <= max,
                list@.len() == i,
                forall|j: int| 0 <= j < i ==> (#[trigger] list@[j]) == values@[j] as u16,
            decreases n - i,
        {
            list.push(values[i] as u16);
            i += 1;
        }
        assert(list@ =~= values@.map_values(|v: u64| v as u16));
        Node::Instruction(Instruction::PushU16List(list))
    } else if max <= 0xffff_ffff {
        let mut list: Vec<u32> = Vec::new();
        let mut i: usize = 0;
        while i < n
            invariant
                n == values@.len(),
                i <= n,
                max <= 0xffff_ffff,
                forall|j: int| 0 <= j < n ==> (#[trigger] values@[j]) <= max,
                list@.len() == i,
                forall|j: int| 0 <= j < i ==> (#[trigger] list@[j]) == values@[j] as u32,
            decreases n - i,
        {
            list.push(values[i] as u32);
            i += 1;
        }
        assert(list@ =~= values@.map_values(|v: u64| v as u32));
        Node::Instruction(Instruction::PushU32List(list))
    } else {
        let mut list: Vec<Felt> = Vec::new();
        let mut i: usize = 0;
        while i < n
            invariant
                n == values@.len(),
                i <= n,
                forall|j: int| 0 <= j < n ==> (#[trigger] values@[j]) < MODULUS,
                list@.len() == i,
                forall|j: int| 0 <= j < i ==> (#[trigger] list@[j])@ == values@[j],
            decreases n - i,
        {
            list.push(Felt::new(values[i]));
            i += 1;
        }
        if n == WORD_SIZE {
            let word: [Felt; 4] = [list[0], list[1], list[2], list[3]];
            assert(felt_values(word@) =~= values@);
            Node::Instruction(Instruction::PushWord(word))
        } else {
            assert(felt_values(list@) =~= values@);
            Node::Instruction(Instruction::PushFeltList(list))
        }
    }
}

/// Determines the narrowest push instruction for a list of decoded values. Where the
/// list holds an error, the first one is returned.
pub fn build_push_many_instruction(values: Vec<Result<u64, ParsingError>>) -> (r: Result<
    Node,
    ParsingError,
>)
    requires
        values@.len() > 0,
        forall|i: int|
            0 <= i < values@.len() ==> ((#[trigger] values@[i]) matches Ok(value) ==> value
                < MODULUS),
    ensures
        node_outcome(r) == push_many_outcome(outcomes(values@)),
{
    let ghost results = values@;
    match collect_values(values) {
        Ok(list) => {
            proof {
                lemma_collect_values_are_given(outcomes(results), list@);
                assert forall|i: int| 0 <= i < list@.len() implies (#[trigger] list@[i])
                    < MODULUS by {
                    assert(results[i] is Ok);
                    assert(outcomes(results)[i] == outcome(results[i]));
                }
            }
            Ok(build_push_list(&list))
        },
        Err(e) => Err(e),
    }
}

/// Values that were collected are the values of the list, one for one.
proof fn lemma_collect_values_are_given(
    results: Seq<Result<u64, ParsingErrorView>>,
    values: Seq<u64>,
)
    requires
        collect(results) == Ok::<Seq<u64>, ParsingErrorView>(values),
    ensures
        values.len() == results.len(),
        forall|i: int|
            0 <= i < results.len() ==> (#[trigger] results[i]) == Ok::<u64, ParsingErrorView>(
                values[i],
            ),
    decreases results.len(),
{
    if results.len() > 0 {
        let front = collect(results.drop_last());
        assert(front is Ok);
        lemma_collect_values_are_given(results.drop_last(), front->Ok_0);
        assert forall|i: int| 0 <= i < results.len() implies (#[trigger] results[i]) == Ok::<
            u64,
            ParsingErrorView,
        >(values[i]) by {
            if i < results.len() - 1 {
                assert(results.drop_last()[i] == results[i]);
            }
        }
    }
}

/// The error of a list is the error of one of its elements.
pub proof fn lemma_list_errors(results: Seq<Result<u64, ParsingErrorView>>)
    ensures
        collect(results) matches Err(e) ==> exists|k: int|
            0 <= k < results.len() && #[trigger] results[k] == Err::<u64, ParsingErrorView>(e),
    decreases results.len(),
{
    if results.len() > 0 {
        lemma_list_errors(results.drop_last());
        match collect(results.drop_last()) {
            Err(e) => {
                let k = choose|k: int|
                    0 <= k < results.drop_last().len() && #[trigger] results.drop_last()[k] == Err::<
                        u64,
                        ParsingErrorView,
                    >(e);
                assert(results[k] == Err::<u64, ParsingErrorView>(e));
            },
            Ok(_) => {
                if results.last() is Err {
                    assert(results[results.len() - 1] == results.last());
                }
            },
        }
    }
}

} // verus!
