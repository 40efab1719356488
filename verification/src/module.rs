//! The module: sole owner of functions, blocks, strings and variables, and
//! the place where blocks are created and terminated.

use vstd::prelude::*;

use crate::block::{Block, BlockData, BlockView, CompareOperation, Instruction, InstructionView, Opcode, TerminalInstruction, Value, ValueRef};
use crate::layout::{lemma_placed_push, placed};
use crate::function_table::{find_function, FunctionKey, FunctionTable, FunctionView};
use crate::object::{StructTypeView, TypeTable};
use crate::types::Type;
use crate::utility::strings::StringTable;
use crate::variables::{Scope, VariableTable, VariableView};

verus! {

/// A variable of the module itself. It starts out as `initializer`, or as
/// the zero of its type where it has none.
#[derive(Debug)]
pub struct Global {
    pub name: String,
    pub type_enum: Type,
    pub initializer: Option<ValueRef>,
}

pub struct GlobalView {
    pub name: Seq<char>,
    pub type_enum: Type,
    pub initializer: Option<ValueRef>,
}

impl View for Global {
    type V = GlobalView;

    open spec fn view(&self) -> GlobalView {
        GlobalView { name: self.name@, type_enum: self.type_enum, initializer: self.initializer }
    }
}

#[derive(Debug)]
pub struct Module {
    pub name: String,
    pub function_table: FunctionTable,
    pub globals: Vec<Global>,
    pub string_table: StringTable,
    pub type_table: TypeTable,
    pub variable_table: VariableTable,
}

pub struct ModuleView {
    pub name: Seq<char>,
    pub functions: Seq<FunctionView>,
    pub globals: Seq<GlobalView>,
    pub strings: Seq<Seq<char>>,
    pub types: Seq<StructTypeView>,
    pub variables: Map<(Scope, Seq<char>), VariableView>,
}

impl View for Module {
    type V = ModuleView;

    open spec fn view(&self) -> ModuleView {
        ModuleView {
            name: self.name@,
            functions: self.function_table@,
            globals: self.globals@.map_values(|g: Global| g@),
            strings: self.string_table@,
            types: self.type_table@,
            variables: self.variable_table@,
        }
    }
}

/// Whether a terminal is one that a block may carry for good: the
/// placeholder, or a real terminal.
pub open spec fn settled(terminal: TerminalInstruction) -> bool {
    terminal is Default || terminal.is_real()
}

/// Every block carries the placeholder or a real terminal.
pub open spec fn all_settled(terminals: Seq<Seq<TerminalInstruction>>) -> bool {
    forall|g: int, i: int|
        0 <= g < terminals.len() && 0 <= i < terminals[g].len() ==> settled(
            #[trigger] terminals[g][i],
        )
}

/// Every block ends in a real terminal: none is left with the placeholder.
pub open spec fn all_real(terminals: Seq<Seq<TerminalInstruction>>) -> bool {
    forall|g: int, i: int|
        0 <= g < terminals.len() && 0 <= i < terminals[g].len() ==> (
        #[trigger] terminals[g][i]).is_real()
}

/// Settled terminals stay settled where a block is added.
pub proof fn lemma_settled_block(terminals: Seq<Seq<TerminalInstruction>>, function: int)
    requires
        all_settled(terminals),
        0 <= function < terminals.len(),
    ensures
        all_settled(
            terminals.update(function, terminals[function].push(TerminalInstruction::Default)),
        ),
{
    let next = terminals.update(function, terminals[function].push(TerminalInstruction::Default));
    assert forall|g: int, i: int|
        0 <= g < next.len() && 0 <= i < next[g].len() implies settled(#[trigger] next[g][i]) by {
        if g == function && i < terminals[g].len() {
            assert(settled(terminals[g][i]));
        } else if g != function {
            assert(settled(terminals[g][i]));
        }
    }
}

/// Settled terminals stay settled where a block gets a settled terminal.
pub proof fn lemma_settled_terminal(
    terminals: Seq<Seq<TerminalInstruction>>,
    block: Block,
    terminal: TerminalInstruction,
)
    requires
        all_settled(terminals),
        block.parent < terminals.len(),
        block.index < terminals[block.parent as int].len(),
        settled(terminal),
    ensures
        all_settled(
            terminals.update(
                block.parent as int,
                terminals[block.parent as int].update(block.index as int, terminal),
            ),
        ),
{
    let next = terminals.update(
        block.parent as int,
        terminals[block.parent as int].update(block.index as int, terminal),
    );
    assert forall|g: int, i: int|
        0 <= g < next.len() && 0 <= i < next[g].len() implies settled(#[trigger] next[g][i]) by {
        if g == block.parent && i == block.index {
        } else {
            assert(settled(terminals[g][i]));
        }
    }
}

/// Whether every function knows its own position in the table, and every
/// block stands once in the order in which the blocks of its function are
/// written out.
#[verifier::opaque]
pub open spec fn ordered(functions: Seq<FunctionView>) -> bool {
    forall|g: int|
        0 <= g < functions.len() ==> (#[trigger] functions[g]).function == g && placed(
            functions[g].layout,
            functions[g].blocks.len(),
        )
}

/// Whether the functions of `after` stand where those of `before` stand,
/// with as many blocks in the same order.
pub open spec fn same_order(before: Seq<FunctionView>, after: Seq<FunctionView>) -> bool {
    &&& after.len() == before.len()
    &&& forall|g: int|
        0 <= g < before.len() ==> {
            &&& (#[trigger] after[g]).function == before[g].function
            &&& after[g].layout == before[g].layout
            &&& after[g].blocks.len() == before[g].blocks.len()
        }
}

/// Functions that stand where ordered functions stood are ordered.
pub proof fn lemma_same_order(before: Seq<FunctionView>, after: Seq<FunctionView>)
    requires
        ordered(before),
        same_order(before, after),
    ensures
        ordered(after),
{
    reveal(ordered);
}

impl ModuleView {
    /// The module of that name that holds nothing yet.
    pub open spec fn empty(name: Seq<char>) -> ModuleView {
        ModuleView {
            name,
            functions: seq![],
            globals: seq![],
            strings: seq![],
            types: seq![],
            variables: Map::empty(),
        }
    }

    /// The terminal of every block, by function and by block.
    pub open spec fn terminals(self) -> Seq<Seq<TerminalInstruction>> {
        Seq::new(
            self.functions.len(),
            |f: int|
                Seq::new(
                    self.functions[f].blocks.len(),
                    |b: int| self.functions[f].blocks[b].terminal,
                ),
        )
    }

    /// Whether `block` is a block of this module.
    pub open spec fn has_block(self, block: Block) -> bool {
        block.parent < self.terminals().len() && block.index
            < self.terminals()[block.parent as int].len()
    }

    pub open spec fn block(self, block: Block) -> BlockView {
        self.functions[block.parent as int].blocks[block.index as int]
    }

    /// The terminal registered for `block`.
    pub open spec fn terminal(self, block: Block) -> TerminalInstruction {
        self.terminals()[block.parent as int][block.index as int]
    }

    /// Every block of every function has exactly one terminal registered,
    /// the placeholder it was created with or the real terminal that has
    /// replaced it; every function knows its position; and every block
    /// stands once in the order of its function.
    pub open spec fn wf(self) -> bool {
        &&& all_settled(self.terminals())
        &&& ordered(self.functions)
    }

    pub open spec fn with_block_replaced(self, block: Block, data: BlockView) -> ModuleView {
        ModuleView {
            functions: self.functions.update(
                block.parent as int,
                FunctionView {
                    blocks: self.functions[block.parent as int].blocks.update(
                        block.index as int,
                        data,
                    ),
                    ..self.functions[block.parent as int]
                },
            ),
            ..self
        }
    }

    /// The module after `instruction` was appended to `block`.
    pub open spec fn emit(self, block: Block, instruction: InstructionView) -> ModuleView {
        self.with_block_replaced(block, self.block(block).with_instruction(instruction))
    }

    /// The handle that the next instruction appended to `block` gets.
    pub open spec fn next_value(self, block: Block) -> ValueRef {
        ValueRef::Instruction { block, index: self.block(block).instructions.len() as usize }
    }

    /// The module after `terminal` replaced the terminal of `block`.
    pub open spec fn with_terminal(self, block: Block, terminal: TerminalInstruction) -> ModuleView {
        self.with_block_replaced(block, self.block(block).with_terminal(terminal))
    }

    /// The handle that the next block of function `function` gets.
    pub open spec fn next_block(self, function: int) -> Block {
        Block { parent: function as usize, index: self.functions[function].blocks.len() as usize }
    }

    /// The module after function `function` got a new block of that name,
    /// which carries the placeholder terminal.
    pub open spec fn with_new_block(self, function: int, name: Seq<char>) -> ModuleView {
        ModuleView {
            functions: self.functions.update(
                function,
                FunctionView {
                    blocks: self.functions[function].blocks.push(
                        BlockView {
                            name,
                            instructions: seq![],
                            terminal: TerminalInstruction::Default,
                        },
                    ),
                    layout: self.functions[function].layout.push(
                        self.functions[function].blocks.len() as usize,
                    ),
                    ..self.functions[function]
                },
            ),
            ..self
        }
    }

    /// The module after `string` was added to the string table.
    pub open spec fn with_string(self, string: Seq<char>) -> ModuleView {
        ModuleView { strings: self.strings.push(string), ..self }
    }

    pub open spec fn with_function(self, function: FunctionView) -> ModuleView {
        ModuleView { functions: self.functions.push(function), ..self }
    }

    pub open spec fn find_function(self, name: Seq<char>) -> Option<int> {
        find_function(self.functions, name)
    }

    pub open spec fn with_variable(self, scope: Scope, variable: VariableView) -> ModuleView {
        ModuleView { variables: self.variables.insert((scope, variable.name), variable), ..self }
    }

    /// The module after the address of a constant string was taken in
    /// `block`, and that address.
    pub open spec fn create_global_string(self, block: Block, string: Seq<char>) -> (
        ModuleView,
        Value,
    ) {
        (
            self.with_string(string).emit(
                block,
                InstructionView::nullary(
                    Opcode::GlobalString(self.strings.len() as usize),
                    Type::CString(0),
                ),
            ),
            Value { type_enum: Type::CString(0), value: self.next_value(block) },
        )
    }

    /// The module after `block` was made to return `value`, read through
    /// its address if it is one.
    pub open spec fn add_return(self, block: Block, value: Value) -> ModuleView {
        let (after, value) = self.resolve_value(block, value);
        after.with_terminal(block, TerminalInstruction::Return { value: value.value })
    }

    /// The module after `value` was brought to the one bit that decides a
    /// branch, and that bit. The value is read through its address if it is
    /// one. An integer that is wider than one bit is compared with zero: it
    /// holds where it is not zero. Any other value is converted to one bit.
    pub open spec fn decide(self, block: Block, value: Value) -> (ModuleView, Value) {
        let (resolved, value) = self.resolve_value(block, value);
        match value.type_enum {
            Type::Integer(_, bits) if bits > 1 => (
                resolved.emit(
                    block,
                    InstructionView::binary(
                        Opcode::IntegerCompare(CompareOperation::NotEquals),
                        Type::Integer(0, 1),
                        value.value,
                        ValueRef::Integer { bits, number: 0 },
                    ),
                ),
                Value { type_enum: Type::Integer(0, 1), value: resolved.next_value(block) },
            ),
            _ => resolved.convert_to_type(block, value, Type::Integer(0, 1)),
        }
    }

    /// The module after `block` was made to branch on `value`, brought to
    /// one bit.
    pub open spec fn add_branch_if_true(
        self,
        block: Block,
        value: Value,
        if_true: Block,
        if_false: Block,
    ) -> ModuleView {
        let (after, condition) = self.decide(block, value);
        after.with_terminal(
            block,
            TerminalInstruction::ConditionalBranch {
                condition: condition.value,
                target_if_false: if_false,
                target_if_true: if_true,
            },
        )
    }

    /// The terminals after the terminal of `block` was replaced.
    pub open spec fn terminals_with(self, block: Block, terminal: TerminalInstruction) -> Seq<
        Seq<TerminalInstruction>,
    > {
        self.terminals().update(
            block.parent as int,
            self.terminals()[block.parent as int].update(block.index as int, terminal),
        )
    }

    /// The terminals after function `function` got a new block.
    pub open spec fn terminals_with_block(self, function: int) -> Seq<Seq<TerminalInstruction>> {
        self.terminals().update(
            function,
            self.terminals()[function].push(TerminalInstruction::Default),
        )
    }
}

impl Module {
    pub fn new(name: &str) -> (result: Self)
        ensures
            result@ == ModuleView::empty(name@),
            result@.wf(),
    {
        let result = Module {
            name: String::from_str(name),
            function_table: FunctionTable::default(),
            globals: Vec::new(),
            string_table: StringTable::default(),
            type_table: TypeTable::default(),
            variable_table: VariableTable::default(),
        };
        assert(result@.globals =~= seq![]);
        proof {
            reveal(ordered);
        }
        result
    }

    /// Appends `instruction` to `block` and returns the handle of its result.
    pub fn emit(&mut self, block: Block, instruction: Instruction) -> (result: ValueRef)
        requires
            old(self)@.has_block(block),
        ensures
            final(self)@ == old(self)@.emit(block, instruction@),
            final(self)@.terminals() == old(self)@.terminals(),
            old(self)@.wf() ==> final(self)@.wf(),
            result == old(self)@.next_value(block),
    {
        let ghost view = instruction@;
        let index = self.function_table.functions[block.parent].blocks[block.index].instructions.len();
        self.function_table.functions[block.parent].blocks[block.index].instructions.push(
            instruction,
        );
        proof {
            let before = old(self)@;
            let after = final(self)@;
            let f = block.parent as int;
            let b = block.index as int;
            assert(after.functions[f].blocks[b].instructions =~= before.functions[f].blocks[b].instructions.push(
                view,
            ));
            assert(after.functions[f].blocks =~= before.emit(block, view).functions[f].blocks);
            assert(after.functions =~= before.emit(block, view).functions);
            assert(after.terminals() =~~= before.terminals());
            if before.wf() {
                lemma_same_order(before.functions, after.functions);
            }
        }
        ValueRef::Instruction { block, index }
    }

    /// Creates a block in the function at position `function`. The block is
    /// created with the placeholder terminal, so that it is never without one.
    pub fn new_block_at(&mut self, name: &str, function: usize) -> (block: Block)
        requires
            function < old(self)@.functions.len(),
        ensures
            final(self)@ == old(self)@.with_new_block(function as int, name@),
            final(self)@.terminals() == old(self)@.terminals_with_block(function as int),
            block == old(self)@.next_block(function as int),
            block.index == old(self)@.functions[function as int].blocks.len(),
            block.index == old(self)@.terminals()[function as int].len(),
            block.parent == function,
            final(self)@.has_block(block),
            old(self)@.wf() ==> final(self)@.wf(),
            old(self)@.wf() ==> final(self)@.functions[function as int].terminal(block) == Some(
                TerminalInstruction::Default,
            ),
    {
        let index = self.function_table.functions[function].blocks.len();
        let block = Block { parent: function, index };
        let data = BlockData {
            name: String::from_str(name),
            instructions: Vec::new(),
            terminal: TerminalInstruction::Default,
        };
        assert(data@.instructions =~= seq![]);
        self.function_table.functions[function].blocks.push(data);
        self.function_table.functions[function].layout.push(index);
        proof {
            let before = old(self)@;
            let after = final(self)@;
            let f = function as int;
            let expected = before.with_new_block(f, name@);
            assert(after.functions[f].blocks =~= expected.functions[f].blocks);
            assert(after.functions =~= expected.functions);
            assert(after.terminals()[f] =~= before.terminals()[f].push(
                TerminalInstruction::Default,
            ));
            assert(after.terminals() =~~= before.terminals().update(
                f,
                before.terminals()[f].push(TerminalInstruction::Default),
            ));
            if before.wf() {
                lemma_settled_block(before.terminals(), f);
                reveal(ordered);
                lemma_placed_push(before.functions[f].layout, index);
                assert(after.functions[f].owns(block));
            }
        }
        block
    }

    /// Creates a block in the function that `function` finds.
    pub fn new_block(&mut self, name: &str, function: &FunctionKey) -> (block: Block)
        requires
            old(self)@.find_function(function@) is Some,
        ensures
            final(self)@ == old(self)@.with_new_block(
                old(self)@.find_function(function@).unwrap(),
                name@,
            ),
            block == old(self)@.next_block(old(self)@.find_function(function@).unwrap()),
            final(self)@.has_block(block),
            final(self)@.terminal(block) == TerminalInstruction::Default,
            old(self)@.wf() ==> final(self)@.wf(),
            old(self)@.wf() ==> final(self)@.functions[block.parent as int].terminal(block) == Some(
                TerminalInstruction::Default,
            ),
    {
        let index = self.function_table.index_of(function);
        self.new_block_at(name, index.unwrap())
    }

    /// Replaces the terminal of `block`: the old one is removed, then the new
    /// one is registered, so that the block never holds two.
    pub fn set_block_terminal(&mut self, block: Block, terminal: TerminalInstruction)
        requires
            old(self)@.has_block(block),
        ensures
            final(self)@ == old(self)@.with_terminal(block, terminal),
            final(self)@.terminals() == old(self)@.terminals_with(block, terminal),
            old(self)@.wf() && settled(terminal) ==> final(self)@.wf(),
    {
        self.delete_block_terminal(block);
        let ghost between = self@;
        assert(self@.has_block(block));
        assert(self.function_table.functions@.len() == self@.functions.len());
        assert(self.function_table.functions@[block.parent as int].blocks@.len()
            == self@.functions[block.parent as int].blocks.len());
        self.function_table.functions[block.parent].blocks[block.index].terminal = terminal;
        proof {
            let before = old(self)@;
            let after = final(self)@;
            let f = block.parent as int;
            let expected = before.with_terminal(block, terminal);
            let stepwise = between.with_terminal(block, terminal);
            assert(after.functions[f].blocks =~= stepwise.functions[f].blocks);
            assert(after.functions =~= stepwise.functions);
            assert(stepwise.functions[f].blocks =~= expected.functions[f].blocks);
            assert(stepwise.functions =~= expected.functions);
            assert(after.terminals()[f] =~= before.terminals()[f].update(
                block.index as int,
                terminal,
            ));
            assert(after.terminals() =~~= before.terminals().update(
                f,
                before.terminals()[f].update(block.index as int, terminal),
            ));
            if before.wf() && settled(terminal) {
                lemma_settled_terminal(before.terminals(), block, terminal);
                lemma_same_order(before.functions, after.functions);
            }
        }
    }

    /// Removes the terminal of `block`, which is then without one until the
    /// next is registered. Only the replacing of a terminal goes through
    /// here, so that no block is left without one.
    pub(crate) fn delete_block_terminal(&mut self, block: Block)
        requires
            old(self)@.has_block(block),
        ensures
            final(self)@ == old(self)@.with_terminal(block, TerminalInstruction::Missing),
    {
        self.function_table.functions[block.parent].blocks[block.index].terminal =
            TerminalInstruction::Missing;
        proof {
            let before = old(self)@;
            let after = final(self)@;
            let f = block.parent as int;
            let expected = before.with_terminal(block, TerminalInstruction::Missing);
            assert(after.functions[f].blocks =~= expected.functions[f].blocks);
            assert(after.functions =~= expected.functions);
        }
    }

    /// Whether `block` still carries the placeholder it was created with,
    /// that is, whether no real terminal has replaced it.
    pub fn has_default_block_terminal(&self, block: Block) -> (result: bool)
        requires
            self@.has_block(block),
        ensures
            result == (self@.terminal(block) == TerminalInstruction::Default),
    {
        match self.function_table.functions[block.parent].blocks[block.index].terminal {
            TerminalInstruction::Default => true,
            _ => false,
        }
    }

    pub fn get_block_name(&self, block: Block) -> (result: String)
        requires
            self@.has_block(block),
        ensures
            result@ == self@.block(block).name,
    {
        self.function_table.functions[block.parent].blocks[block.index].name.clone()
    }

    /// Makes a new block, named after `block` with "cont" appended, the
    /// block that `block` refers to, and returns the old one. What was
    /// emitted so far stays in the old block, whose terminal can now be
    /// decided.
    pub fn split_block_in_place(&mut self, block: &mut Block) -> (old_block: Block)
        requires
            old(self)@.has_block(*old(block)),
        ensures
            old_block == *old(block),
            *final(block) == old(self)@.next_block(old(block).parent as int),
            final(self)@ == old(self)@.with_new_block(
                old(block).parent as int,
                old(self)@.block(*old(block)).name + "cont"@,
            ),
            final(self)@.terminals() == old(self)@.terminals_with_block(old(block).parent as int),
            final(block).index == old(self)@.terminals()[old(block).parent as int].len(),
            final(block).parent == old(block).parent,
            final(self)@.has_block(*final(block)),
            old(self)@.wf() ==> final(self)@.wf(),
    {
        let name = self.get_block_name(*block).concat("cont");
        let old_block = *block;
        *block = self.new_block_at(name.as_str(), old_block.parent);
        old_block
    }

    pub fn add_return_void(&mut self, block: Block)
        requires
            old(self)@.has_block(block),
        ensures
            final(self)@ == old(self)@.with_terminal(block, TerminalInstruction::ReturnVoid),
            final(self)@.terminals() == old(self)@.terminals_with(
                block,
                TerminalInstruction::ReturnVoid,
            ),
            old(self)@.wf() ==> final(self)@.wf(),
    {
        self.set_block_terminal(block, TerminalInstruction::ReturnVoid);
    }

    pub fn add_branch(&mut self, block: Block, target: Block)
        requires
            old(self)@.has_block(block),
        ensures
            final(self)@ == old(self)@.with_terminal(
                block,
                TerminalInstruction::Branch { target },
            ),
            final(self)@.terminals() == old(self)@.terminals_with(
                block,
                TerminalInstruction::Branch { target },
            ),
            old(self)@.wf() ==> final(self)@.wf(),
    {
        self.set_block_terminal(block, TerminalInstruction::Branch { target });
    }

    pub fn add_return(&mut self, block: Block, value: Value)
        requires
            old(self)@.has_block(block),
        ensures
            final(self)@ == old(self)@.add_return(block, value),
            final(self)@.terminals() == old(self)@.terminals_with(
                block,
                TerminalInstruction::Return {
                    value: old(self)@.resolve_value(block, value).1.value,
                },
            ),
            old(self)@.wf() ==> final(self)@.wf(),
    {
        let value = self.resolve_value(block, value);
        self.set_block_terminal(block, TerminalInstruction::Return { value: value.value });
    }

    /// Brings a value to the one bit that decides a branch.
    pub fn decide(&mut self, block: Block, value: Value) -> (result: Value)
        requires
            old(self)@.has_block(block),
            value.type_enum.resolved().decides(),
        ensures
            (final(self)@, result) == old(self)@.decide(block, value),
            final(self)@.terminals() == old(self)@.terminals(),
            old(self)@.wf() ==> final(self)@.wf(),
    {
        let value = self.resolve_value(block, value);
        match value.type_enum {
            Type::Integer(_, bits) => {
                if bits > 1 {
                    let compared = self.emit(
                        block,
                        Instruction::binary(
                            Opcode::IntegerCompare(CompareOperation::NotEquals),
                            Type::Integer(0, 1),
                            value.value,
                            ValueRef::Integer { bits, number: 0 },
                        ),
                    );
                    Value { type_enum: Type::Integer(0, 1), value: compared }
                } else {
                    self.convert_to_type(block, value, Type::Integer(0, 1))
                }
            },
            _ => self.convert_to_type(block, value, Type::Integer(0, 1)),
        }
    }

    /// Ends `block` in a branch to `if_true` where `value` holds and to
    /// `if_false` where it does not.
    pub fn add_branch_if_true(&mut self, block: Block, value: Value, if_true: Block, if_false: Block)
        requires
            old(self)@.has_block(block),
            value.type_enum.resolved().decides(),
        ensures
            final(self)@ == old(self)@.add_branch_if_true(block, value, if_true, if_false),
            final(self)@.terminals() == old(self)@.terminals_with(
                block,
                TerminalInstruction::ConditionalBranch {
                    condition: old(self)@.decide(block, value).1.value,
                    target_if_false: if_false,
                    target_if_true: if_true,
                },
            ),
            old(self)@.wf() ==> final(self)@.wf(),
    {
        let condition = self.decide(block, value);
        self.set_block_terminal(
            block,
            TerminalInstruction::ConditionalBranch {
                condition: condition.value,
                target_if_false: if_false,
                target_if_true: if_true,
            },
        );
    }

    pub fn create_global_string(&mut self, block: Block, string: &str) -> (result: Value)
        requires
            old(self)@.has_block(block),
        ensures
            (final(self)@, result) == old(self)@.create_global_string(block, string@),
            final(self)@.terminals() == old(self)@.terminals(),
            old(self)@.wf() ==> final(self)@.wf(),
    {
        let position = self.string_table.to_llvm_string(string);
        let value = self.emit(
            block,
            Instruction::nullary(Opcode::GlobalString(position), Type::CString(0)),
        );
        Value { type_enum: Type::CString(0), value }
    }

    /// The name under which a function of the source is declared: an
    /// underscore is put in front, so that it cannot meet a name that means
    /// something to the linker.
    pub fn transform_function_name(&self, name: &str) -> (result: String)
        ensures
            result@ == "_"@ + name@,
    {
        String::from_str("_").concat(name)
    }
}

/// An instruction that is appended to a block changes no terminal.
pub proof fn lemma_emit_keeps_terminals(module: ModuleView, block: Block, instruction: InstructionView)
    requires
        module.has_block(block),
    ensures
        module.emit(block, instruction).terminals() == module.terminals(),
{
    assert(module.emit(block, instruction).terminals() =~~= module.terminals());
}

/// A terminal that replaces the terminal of a block changes that terminal
/// and no other.
pub proof fn lemma_terminal_replaced(module: ModuleView, block: Block, terminal: TerminalInstruction)
    requires
        module.has_block(block),
    ensures
        module.with_terminal(block, terminal).terminals() == module.terminals_with(block, terminal),
        module.with_terminal(block, terminal).terminal(block) == terminal,
        forall|other: Block|
            module.has_block(other) && other != block ==> #[trigger] module.with_terminal(
                block,
                terminal,
            ).terminal(other) == module.terminal(other),
{
    assert(module.with_terminal(block, terminal).terminals() =~~= module.terminals_with(
        block,
        terminal,
    ));
}

/// In a well-formed module each function holds, for each of its blocks,
/// the terminal that the module holds for it.
pub proof fn lemma_function_holds_terminal(module: ModuleView, block: Block)
    requires
        module.wf(),
        module.has_block(block),
    ensures
        module.functions[block.parent as int].owns(block),
        module.functions[block.parent as int].terminal(block) == Some(module.terminal(block)),
{
    reveal(ordered);
    let function = module.functions[block.parent as int];
    assert(function.function == block.parent);
    assert(settled(module.terminals()[block.parent as int][block.index as int]));
}

/// A new block carries the placeholder, and changes no other terminal.
pub proof fn lemma_new_block_has_default(module: ModuleView, function: int, name: Seq<char>)
    requires
        0 <= function < module.functions.len(),
    ensures
        module.with_new_block(function, name).terminals() == module.terminals_with_block(
            function,
        ),
        module.with_new_block(function, name).terminals()[function].last()
            == TerminalInstruction::Default,
        forall|other: Block|
            module.has_block(other) ==> #[trigger] module.with_new_block(function, name).terminal(
                other,
            ) == module.terminal(other),
{
    let after = module.with_new_block(function, name);
    assert(after.terminals()[function] =~= module.terminals()[function].push(
        TerminalInstruction::Default,
    ));
    assert(after.terminals() =~~= module.terminals_with_block(function));
}

} // verus!
