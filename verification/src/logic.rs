//! Short-circuit logic: a chain of step blocks, one per operand, that all
//! lead to one join block where the result is merged.

use vstd::prelude::*;

use crate::block::{Block, CompareOperation, Instruction, InstructionView, Opcode, TerminalInstruction, Value, ValueRef};
use crate::math::immediate_integer;
use crate::module::{Module, ModuleView};
use crate::types::{outcome, MathError, MathErrorView, Type};

verus! {

/// Which outcome of an operand ends the evaluation early.
#[derive(Clone, Copy, Debug, PartialEq, Eq, Structural)]
pub enum LogicOperation {
    And,
    Or,
}

impl LogicOperation {
    /// The comparison with zero that holds where the evaluation ends early:
    /// an operand that is zero decides a conjunction, one that is not zero a
    /// disjunction.
    pub open spec fn sentinel(self) -> CompareOperation {
        match self {
            LogicOperation::And => CompareOperation::Equals,
            LogicOperation::Or => CompareOperation::NotEquals,
        }
    }

    pub open spec fn step_name(self) -> Seq<char> {
        match self {
            LogicOperation::And => "logicstep_And"@,
            LogicOperation::Or => "logicstep_Or"@,
        }
    }
}

/// The state of one short-circuit evaluation while it is compiled.
#[derive(Debug)]
pub struct LogicBlock {
    /// The step blocks, one per operand, in the order of the operands.
    pub blocks: Vec<Block>,
    /// The position of the step that the next operand is compiled into.
    pub block_index: usize,
    /// The join block.
    pub end: Block,
    pub operation: LogicOperation,
    /// The values of the operands compiled so far.
    pub values: Vec<Value>,
}

pub struct LogicBlockView {
    pub blocks: Seq<Block>,
    pub block_index: usize,
    pub end: Block,
    pub operation: LogicOperation,
    pub values: Seq<Value>,
}

impl View for LogicBlock {
    type V = LogicBlockView;

    open spec fn view(&self) -> LogicBlockView {
        LogicBlockView {
            blocks: self.blocks@,
            block_index: self.block_index,
            end: self.end,
            operation: self.operation,
            values: self.values@,
        }
    }
}

impl LogicBlockView {
    /// Whether there is a step left to compile an operand into.
    pub open spec fn has_current(self) -> bool {
        self.block_index < self.blocks.len()
    }

    pub open spec fn current(self) -> Block {
        self.blocks[self.block_index as int]
    }

    /// The evaluation with another block in place of the current step.
    pub open spec fn with_current(self, block: Block) -> LogicBlockView {
        LogicBlockView { blocks: self.blocks.update(self.block_index as int, block), ..self }
    }
}

impl LogicBlock {
    pub fn get_current_block(&self) -> (result: Block)
        requires
            self@.has_current(),
        ensures
            result == self@.current(),
    {
        self.blocks[self.block_index]
    }

    pub fn get_current_block_ref(&self) -> (result: &Block)
        requires
            self@.has_current(),
        ensures
            *result == self@.current(),
    {
        &self.blocks[self.block_index]
    }

    pub fn get_current_block_mut(&mut self) -> (result: &mut Block)
        requires
            old(self)@.has_current(),
        ensures
            *result == old(self)@.current(),
            final(self)@ == old(self)@.with_current(*final(result)),
    {
        &mut self.blocks[self.block_index]
    }

    pub fn get_next_block(&self) -> (result: Option<Block>)
        requires
            self@.has_current(),
        ensures
            result == if self.block_index + 1 < self.blocks@.len() {
                Some(self.blocks@[self.block_index + 1])
            } else {
                None
            },
    {
        let length = self.blocks.len();
        if self.block_index + 1 >= length {
            None
        } else {
            Some(self.blocks[self.block_index + 1])
        }
    }

    pub fn get_first_block(&self) -> (result: Block)
        requires
            self.blocks@.len() > 0,
        ensures
            result == self.blocks@[0],
    {
        self.blocks[0]
    }

    pub fn get_end(&self) -> (result: Block)
        ensures
            result == self.end,
    {
        self.end
    }
}

impl ModuleView {
    /// The module after function `function` got `count` new blocks of one
    /// name.
    pub open spec fn with_new_blocks(self, function: int, name: Seq<char>, count: nat) -> ModuleView
        decreases count,
    {
        if count == 0 {
            self
        } else {
            self.with_new_blocks(function, name, (count - 1) as nat).with_new_block(function, name)
        }
    }

    /// The module after function `function` got the blocks of a short-circuit
    /// evaluation of `count` operands: the steps, then the join block.
    pub open spec fn with_logic_blocks(self, function: int, operation: LogicOperation, count: nat) -> ModuleView {
        self.with_new_blocks(function, operation.step_name(), count).with_new_block(
            function,
            "end"@,
        )
    }

    /// The terminals after function `function` got `count` new blocks.
    pub open spec fn terminals_with_blocks(self, function: int, count: nat) -> Seq<
        Seq<TerminalInstruction>,
    > {
        self.terminals().update(
            function,
            self.terminals()[function] + Seq::new(count, |i: int| TerminalInstruction::Default),
        )
    }

    /// The evaluation that starts on the blocks which `with_logic_blocks`
    /// made.
    pub open spec fn new_logic_block(self, function: int, operation: LogicOperation, count: nat) -> LogicBlockView {
        let first = self.functions[function].blocks.len();
        LogicBlockView {
            blocks: Seq::new(
                count,
                |i: int| Block { parent: function as usize, index: (first + i) as usize },
            ),
            block_index: 0,
            end: Block { parent: function as usize, index: (first + count) as usize },
            operation,
            values: seq![],
        }
    }

    /// The module after `value` was compiled as the operand of the current
    /// step: the step compares it with zero and ends in a branch to the join
    /// block where that decides the result, else to the next step. The last
    /// step branches to the join block in any case.
    pub open spec fn add_logic(self, logic: LogicBlockView, value: Value) -> (
        ModuleView,
        Result<LogicBlockView, MathErrorView>,
    ) {
        let (compared, decided) = self.add_compare(
            logic.current(),
            value,
            immediate_integer(0),
            logic.operation.sentinel(),
        );
        match decided {
            Err(error) => (compared, Err(error)),
            Ok(decided) => (
                if logic.block_index + 1 < logic.blocks.len() {
                    compared.add_branch_if_true(
                        logic.current(),
                        decided,
                        logic.end,
                        logic.blocks[logic.block_index + 1],
                    )
                } else {
                    compared.with_terminal(
                        logic.current(),
                        TerminalInstruction::Branch { target: logic.end },
                    )
                },
                Ok(
                    LogicBlockView {
                        block_index: (logic.block_index + 1) as usize,
                        values: logic.values.push(value),
                        ..logic
                    },
                ),
            ),
        }
    }

    /// The merge that selects, for each step, the value of its operand.
    pub open spec fn merge(logic: LogicBlockView) -> InstructionView {
        InstructionView {
            opcode: Opcode::Merge,
            type_enum: Type::Integer(0, 64),
            operands: logic.values.map_values(|value: Value| value.value),
            blocks: logic.blocks,
        }
    }

    /// The module after the join block got its merge, and the merged value.
    pub open spec fn commit_logic_block(self, logic: LogicBlockView) -> (ModuleView, Value) {
        (
            self.emit(logic.end, Self::merge(logic)),
            Value { type_enum: Type::Integer(0, 64), value: self.next_value(logic.end) },
        )
    }
}

impl Module {
    /// Creates the blocks of a short-circuit evaluation of `count` operands
    /// in the function of `parent`.
    pub fn new_logic_block(&mut self, parent: Block, operation: LogicOperation, count: usize) -> (result:
        LogicBlock)
        requires
            old(self)@.has_block(parent),
        ensures
            final(self)@ == old(self)@.with_logic_blocks(
                parent.parent as int,
                operation,
                count as nat,
            ),
            final(self)@.terminals() == old(self)@.terminals_with_blocks(
                parent.parent as int,
                count as nat + 1,
            ),
            result@ == old(self)@.new_logic_block(parent.parent as int, operation, count as nat),
            result.end.index == old(self)@.functions[parent.parent as int].blocks.len() + count,
            old(self)@.wf() ==> final(self)@.wf(),
    {
        let ghost before = self@;
        let ghost f = parent.parent as int;
        let function = parent.parent;
        let mut blocks: Vec<Block> = Vec::new();
        let mut i: usize = 0;
        proof {
            assert(before.terminals_with_blocks(f, 0) =~~= before.terminals());
        }
        while i < count
            invariant
                i <= count,
                f == function as int,
                function < before.functions.len(),
                self@ == before.with_new_blocks(f, operation.step_name(), i as nat),
                self@.terminals() == before.terminals_with_blocks(f, i as nat),
                before.wf() ==> self@.wf(),
                blocks@ == before.new_logic_block(f, operation, i as nat).blocks,
            decreases count - i,
        {
            assert(self@.functions.len() == self@.terminals().len());
            let block = match operation {
                LogicOperation::And => self.new_block_at("logicstep_And", function),
                LogicOperation::Or => self.new_block_at("logicstep_Or", function),
            };
            blocks.push(block);
            proof {
                assert(self@.terminals() =~~= before.terminals_with_blocks(f, i as nat + 1));
                assert(blocks@ =~= before.new_logic_block(f, operation, i as nat + 1).blocks);
            }
            i += 1;
        }
        assert(self@.functions.len() == self@.terminals().len());
        let end = self.new_block_at("end", function);
        proof {
            assert(self@.terminals() =~~= before.terminals_with_blocks(f, count as nat + 1));
        }
        LogicBlock { blocks, block_index: 0, end, operation, values: Vec::new() }
    }

    /// Compiles `value` as the operand of the current step and moves on to
    /// the next.
    pub fn add_logic(&mut self, logic: LogicBlock, value: Value) -> (result: Result<
        LogicBlock,
        MathError,
    >)
        requires
            logic@.has_current(),
            old(self)@.has_block(logic@.current()),
        ensures
            final(self)@ == old(self)@.add_logic(logic@, value).0,
            match result {
                Ok(moved) => old(self)@.add_logic(logic@, value).1 == Ok::<
                    LogicBlockView,
                    MathErrorView,
                >(moved@),
                Err(error) => old(self)@.add_logic(logic@, value).1 == Err::<
                    LogicBlockView,
                    MathErrorView,
                >(error@),
            },
            result is Err ==> final(self)@.terminals() == old(self)@.terminals(),
            result is Ok ==> final(self)@.terminals() == old(self)@.terminals_with(
                logic@.current(),
                final(self)@.terminal(logic@.current()),
            ) && final(self)@.terminal(logic@.current()).is_real(),
            result is Ok && old(self)@.wf() ==> final(self)@.wf(),
    {
        let mut logic = logic;
        let length = logic.blocks.len();
        let current = logic.get_current_block();
        let zero = self.create_immediate_integer(0);
        let compared = match logic.operation {
            LogicOperation::And => self.add_equals(current, value, zero),
            LogicOperation::Or => self.add_not_equals(current, value, zero),
        };
        let decided = match compared {
            Ok(decided) => decided,
            Err(error) => { return Err(error); },
        };
        logic.values.push(value);
        if let Some(next_block) = logic.get_next_block() {
            self.add_branch_if_true(current, decided, logic.end, next_block);
        } else {
            self.add_branch(current, logic.end);
        }
        logic.block_index += 1;
        Ok(logic)
    }

    /// Builds the join block: its merge selects, for each step, the value
    /// of that step's operand. The result is a 64-bit integer.
    pub fn commit_logic_block(&mut self, logic: LogicBlock) -> (result: Result<
        (Value, Block),
        MathError,
    >)
        requires
            old(self)@.has_block(logic.end),
        ensures
            result matches Ok((value, end)) && (final(self)@, value) == old(
                self,
            )@.commit_logic_block(logic@) && end == logic.end,
            final(self)@.terminals() == old(self)@.terminals(),
            old(self)@.wf() ==> final(self)@.wf(),
    {
        let mut operands: Vec<ValueRef> = Vec::new();
        let mut i: usize = 0;
        while i < logic.values.len()
            invariant
                i <= logic.values@.len(),
                operands@ == logic.values@.take(i as int).map_values(|value: Value| value.value),
            decreases logic.values@.len() - i,
        {
            operands.push(logic.values[i].value);
            proof {
                assert(operands@ =~= logic.values@.take(i + 1).map_values(
                    |value: Value| value.value,
                ));
            }
            i += 1;
        }
        proof {
            assert(logic.values@.take(i as int) =~= logic.values@);
        }
        let end = logic.end;
        let merge = Instruction {
            opcode: Opcode::Merge,
            type_enum: Type::Integer(0, 64),
            operands,
            blocks: logic.blocks,
        };
        let value = self.emit(end, merge);
        Ok((Value { type_enum: Type::Integer(0, 64), value }, end))
    }
}

} // verus!
