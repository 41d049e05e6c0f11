//! Instruction nodes: what a token becomes once it is parsed.

use crate::felt::Felt;
use vstd::prelude::*;

verus! {

/// The values of a sequence of field elements.
pub open spec fn felt_values(elements: Seq<Felt>) -> Seq<u64> {
    elements.map_values(|e: Felt| e@)
}

/// An instruction together with its immediate operands.
#[derive(Clone, Debug, PartialEq, Eq)]
pub enum Instruction {
    PushU8(u8),
    PushU16(u16),
    PushU32(u32),
    PushFelt(Felt),
    PushU8List(Vec<u8>),
    PushU16List(Vec<u16>),
    PushU32List(Vec<u32>),
    PushFeltList(Vec<Felt>),
    PushWord([Felt; 4]),
    Locaddr(u16),
    AdvPush(u8),
    MemLoad,
    MemLoadImm(u32),
    MemLoadW,
    MemLoadWImm(u32),
    MemStore,
    MemStoreImm(u32),
    MemStoreW,
    MemStoreWImm(u32),
    LocLoad(u16),
    LocLoadW(u16),
    LocStore(u16),
    LocStoreW(u16),
}

/// An instruction with its operands as numbers and sequences of numbers.
pub enum InstructionView {
    PushU8(u8),
    PushU16(u16),
    PushU32(u32),
    PushFelt(u64),
    PushU8List(Seq<u8>),
    PushU16List(Seq<u16>),
    PushU32List(Seq<u32>),
    PushFeltList(Seq<u64>),
    PushWord(Seq<u64>),
    Locaddr(u16),
    AdvPush(u8),
    MemLoad,
    MemLoadImm(u32),
    MemLoadW,
    MemLoadWImm(u32),
    MemStore,
    MemStoreImm(u32),
    MemStoreW,
    MemStoreWImm(u32),
    LocLoad(u16),
    LocLoadW(u16),
    LocStore(u16),
    LocStoreW(u16),
}

impl View for Instruction {
    type V = InstructionView;

    open spec fn view(&self) -> InstructionView {
        match *self {
            Instruction::PushU8(v) => InstructionView::PushU8(v),
            Instruction::PushU16(v) => InstructionView::PushU16(v),
            Instruction::PushU32(v) => InstructionView::PushU32(v),
            Instruction::PushFelt(v) => InstructionView::PushFelt(v@),
            Instruction::PushU8List(v) => InstructionView::PushU8List(v@),
            Instruction::PushU16List(v) => InstructionView::PushU16List(v@),
            Instruction::PushU32List(v) => InstructionView::PushU32List(v@),
            Instruction::PushFeltList(v) => InstructionView::PushFeltList(felt_values(v@)),
            Instruction::PushWord(v) => InstructionView::PushWord(felt_values(v@)),
            Instruction::Locaddr(v) => InstructionView::Locaddr(v),
            Instruction::AdvPush(v) => InstructionView::AdvPush(v),
            Instruction::MemLoad => InstructionView::MemLoad,
            Instruction::MemLoadImm(v) => InstructionView::MemLoadImm(v),
            Instruction::MemLoadW => InstructionView::MemLoadW,
            Instruction::MemLoadWImm(v) => InstructionView::MemLoadWImm(v),
            Instruction::MemStore => InstructionView::MemStore,
            Instruction::MemStoreImm(v) => InstructionView::MemStoreImm(v),
            Instruction::MemStoreW => InstructionView::MemStoreW,
            Instruction::MemStoreWImm(v) => InstructionView::MemStoreWImm(v),
            Instruction::LocLoad(v) => InstructionView::LocLoad(v),
            Instruction::LocLoadW(v) => InstructionView::LocLoadW(v),
            Instruction::LocStore(v) => InstructionView::LocStore(v),
            Instruction::LocStoreW(v) => InstructionView::LocStoreW(v),
        }
    }
}

/// A node of the parsed program.
#[derive(Clone, Debug, PartialEq, Eq)]
pub enum Node {
    Instruction(Instruction),
}

/// A node with its operands as numbers and sequences of numbers.
pub enum NodeView {
    Instruction(InstructionView),
}

impl View for Node {
    type V = NodeView;

    open spec fn view(&self) -> NodeView {
        match *self {
            Node::Instruction(instruction) => NodeView::Instruction(instruction@),
        }
    }
}

} // verus!
