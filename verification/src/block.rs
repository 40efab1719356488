//! Blocks, their instructions and their terminals.

use vstd::prelude::*;

use crate::types::{Bits, Type};

verus! {

/// Handle of a block: the index of the function that owns it and the block's
/// position among that function's blocks, in order of creation.
#[derive(Clone, Copy, Debug, PartialEq, Eq, Hash, Structural)]
pub struct Block {
    pub parent: usize,
    pub index: usize,
}

impl Block {
    pub fn get_block(&self) -> (result: usize)
        ensures
            result == self.index,
    {
        self.index
    }

    pub fn get_parent(&self) -> (result: usize)
        ensures
            result == self.parent,
    {
        self.parent
    }
}

/// Handle of something an instruction can consume.
#[derive(Clone, Copy, Debug, PartialEq, Eq, Structural)]
pub enum ValueRef {
    /// An integer immediate of the given width.
    Integer { bits: Bits, number: u64 },
    /// A float immediate; `literal` indexes its text in the string table.
    Float { literal: usize },
    /// The `index`-th parameter of a function.
    Argument { function: usize, index: usize },
    /// The result of the `index`-th instruction of a block.
    Instruction { block: Block, index: usize },
    /// The address of a module-level variable.
    Global { index: usize },
    /// The address of a function.
    Function { index: usize },
    /// The size in bytes of a struct type, which the backend's layout decides.
    StructSize { index: usize },
}

/// A typed value: produced by one emission, consumed by later ones.
#[derive(Clone, Copy, Debug, PartialEq, Eq, Structural)]
pub struct Value {
    pub type_enum: Type,
    pub value: ValueRef,
}

#[derive(Clone, Copy, Debug, PartialEq, Eq, Structural)]
pub enum CompareOperation {
    Equals,
    GreaterThan,
    GreaterThanEqualTo,
    LessThan,
    LessThanEqualTo,
    NotEquals,
}

#[derive(Clone, Copy, Debug, PartialEq, Eq, Structural)]
pub enum Opcode {
    Add,
    FloatAdd,
    Subtract,
    FloatSubtract,
    Multiply,
    FloatMultiply,
    FloatDivide,
    And,
    Or,
    Xor,
    /// Unsigned integer comparison; the result is one bit wide.
    IntegerCompare(CompareOperation),
    /// Ordered float comparison; the result is one bit wide.
    FloatCompare(CompareOperation),
    /// Reads the value behind the address operand.
    Load,
    /// Writes the first operand to the address in the second.
    Store,
    /// Reserves stack space for one value of the instruction's type.
    Allocate,
    /// Truncating conversion of a float to an unsigned integer.
    FloatToInteger,
    /// Conversion of an unsigned integer to a float.
    IntegerToFloat,
    /// Unsigned widening of an integer.
    IntegerCast,
    /// Calls the function with the given index on the operands.
    Call(usize),
    /// The address of a constant string; the payload indexes the string table.
    GlobalString(usize),
    /// The address of element `.0` of the array behind the operand.
    ElementAddress(usize),
    /// The address of field `.1` of the struct of type `.0` behind the
    /// operand.
    FieldAddress(usize, usize),
    /// Selects, per predecessor block, the operand that block contributed.
    Merge,
}

/// One instruction of a block: what it does, the type of its result, the
/// values it consumes and, for a merge, the predecessor of each operand.
#[derive(Debug)]
pub struct Instruction {
    pub opcode: Opcode,
    pub type_enum: Type,
    pub operands: Vec<ValueRef>,
    pub blocks: Vec<Block>,
}

pub struct InstructionView {
    pub opcode: Opcode,
    pub type_enum: Type,
    pub operands: Seq<ValueRef>,
    pub blocks: Seq<Block>,
}

impl View for Instruction {
    type V = InstructionView;

    open spec fn view(&self) -> InstructionView {
        InstructionView {
            opcode: self.opcode,
            type_enum: self.type_enum,
            operands: self.operands@,
            blocks: self.blocks@,
        }
    }
}

impl InstructionView {
    /// An instruction without operands.
    pub open spec fn nullary(opcode: Opcode, type_enum: Type) -> InstructionView {
        InstructionView { opcode, type_enum, operands: seq![], blocks: seq![] }
    }

    /// An instruction on one operand.
    pub open spec fn unary(opcode: Opcode, type_enum: Type, value: ValueRef) -> InstructionView {
        InstructionView { opcode, type_enum, operands: seq![value], blocks: seq![] }
    }

    /// An instruction on two operands.
    pub open spec fn binary(
        opcode: Opcode,
        type_enum: Type,
        lhs: ValueRef,
        rhs: ValueRef,
    ) -> InstructionView {
        InstructionView { opcode, type_enum, operands: seq![lhs, rhs], blocks: seq![] }
    }
}

impl Instruction {
    pub fn nullary(opcode: Opcode, type_enum: Type) -> (result: Instruction)
        ensures
            result@ == InstructionView::nullary(opcode, type_enum),
    {
        Instruction { opcode, type_enum, operands: Vec::new(), blocks: Vec::new() }
    }

    pub fn unary(opcode: Opcode, type_enum: Type, value: ValueRef) -> (result: Instruction)
        ensures
            result@ == InstructionView::unary(opcode, type_enum, value),
    {
        let mut operands = Vec::new();
        operands.push(value);
        assert(operands@ =~= seq![value]);
        Instruction { opcode, type_enum, operands, blocks: Vec::new() }
    }

    pub fn binary(opcode: Opcode, type_enum: Type, lhs: ValueRef, rhs: ValueRef) -> (result:
        Instruction)
        ensures
            result@ == InstructionView::binary(opcode, type_enum, lhs, rhs),
    {
        let mut operands = Vec::new();
        operands.push(lhs);
        operands.push(rhs);
        assert(operands@ =~= seq![lhs, rhs]);
        Instruction { opcode, type_enum, operands, blocks: Vec::new() }
    }
}

/// The control transfer that ends a block.
#[derive(Clone, Copy, Debug, PartialEq, Eq, Structural)]
pub enum TerminalInstruction {
    Branch { target: Block },
    ConditionalBranch { condition: ValueRef, target_if_false: Block, target_if_true: Block },
    /// The placeholder every block is created with: an implicit return of
    /// nothing, which stands until a real terminal replaces it.
    Default,
    /// No terminal at all. A block is in this state only in passing.
    Missing,
    Return { value: ValueRef },
    ReturnVoid,
    Unknown,
}

impl TerminalInstruction {
    /// Whether this is one of the four terminals a finished block may end in.
    pub open spec fn is_real(self) -> bool {
        self is Branch || self is ConditionalBranch || self is Return || self is ReturnVoid
    }

    /// The blocks control may pass to.
    pub open spec fn successors(self) -> Set<Block> {
        match self {
            TerminalInstruction::Branch { target } => set![target],
            TerminalInstruction::ConditionalBranch { target_if_false, target_if_true, .. } => set![
                target_if_true,
                target_if_false,
            ],
            _ => Set::empty(),
        }
    }
}

/// What a function stores for each of its blocks.
#[derive(Debug)]
pub struct BlockData {
    pub name: String,
    pub instructions: Vec<Instruction>,
    /// The registered terminal; `Missing` only between the removal of one
    /// terminal and the registration of the next.
    pub terminal: TerminalInstruction,
}

pub struct BlockView {
    pub name: Seq<char>,
    pub instructions: Seq<InstructionView>,
    pub terminal: TerminalInstruction,
}

impl View for BlockData {
    type V = BlockView;

    open spec fn view(&self) -> BlockView {
        BlockView {
            name: self.name@,
            instructions: self.instructions@.map_values(|i: Instruction| i@),
            terminal: self.terminal,
        }
    }
}

impl BlockView {
    pub open spec fn with_instruction(self, instruction: InstructionView) -> BlockView {
        BlockView { instructions: self.instructions.push(instruction), ..self }
    }

    pub open spec fn with_terminal(self, terminal: TerminalInstruction) -> BlockView {
        BlockView { terminal, ..self }
    }
}

} // verus!
