//! Functions and the table that finds them by name.

use vstd::prelude::*;

use crate::block::{Block, BlockData, BlockView, TerminalInstruction, Value, ValueRef};
use crate::layout::placed;
use crate::module::{lemma_same_order, ordered, Module, ModuleView};
use crate::types::Type;

verus! {

/// A function: its signature, the blocks it owns with the terminal of each,
/// and the learned values lowered in its body so far.
#[derive(Debug)]
pub struct Function {
    /// The blocks in order of creation; a block's handle holds its position.
    pub blocks: Vec<BlockData>,
    /// The order in which the blocks are written out.
    pub layout: Vec<usize>,
    pub argument_types: Vec<Type>,
    pub argument_values: Vec<Value>,
    /// The function's own position in the table.
    pub function: usize,
    pub learned_values: Vec<Value>,
    pub name: String,
    pub return_type: Type,
    /// Whether calls are held to the declared parameters.
    pub check_arguments: bool,
}

pub struct FunctionView {
    pub blocks: Seq<BlockView>,
    pub layout: Seq<usize>,
    pub argument_types: Seq<Type>,
    pub argument_values: Seq<Value>,
    pub function: usize,
    pub learned_values: Seq<Value>,
    pub name: Seq<char>,
    pub return_type: Type,
    pub check_arguments: bool,
}

impl View for Function {
    type V = FunctionView;

    open spec fn view(&self) -> FunctionView {
        FunctionView {
            blocks: self.blocks@.map_values(|b: BlockData| b@),
            layout: self.layout@,
            argument_types: self.argument_types@,
            argument_values: self.argument_values@,
            function: self.function,
            learned_values: self.learned_values@,
            name: self.name@,
            return_type: self.return_type,
            check_arguments: self.check_arguments,
        }
    }
}

impl FunctionView {
    /// The values that stand for the parameters of the function at position
    /// `function`, in the order of their types.
    pub open spec fn arguments(function: usize, argument_types: Seq<Type>) -> Seq<Value> {
        Seq::new(
            argument_types.len(),
            |i: int|
                Value {
                    type_enum: argument_types[i],
                    value: ValueRef::Argument { function, index: i as usize },
                },
        )
    }

    /// A function as it is declared: its signature, and no block yet.
    pub open spec fn declared(
        function: usize,
        name: Seq<char>,
        argument_types: Seq<Type>,
        return_type: Type,
        check_arguments: bool,
    ) -> FunctionView {
        FunctionView {
            blocks: seq![],
            layout: seq![],
            argument_types,
            argument_values: Self::arguments(function, argument_types),
            function,
            learned_values: seq![],
            name,
            return_type,
            check_arguments,
        }
    }

    /// Whether `block` is one of this function's blocks.
    pub open spec fn owns(self, block: Block) -> bool {
        block.parent == self.function && block.index < self.blocks.len()
    }

    /// The handle the next new block gets.
    pub open spec fn next_block(self) -> Block {
        Block { parent: self.function, index: self.blocks.len() as usize }
    }

    /// The function with one more block of that name, which has no
    /// instructions and no terminal yet and is written out last.
    pub open spec fn with_block(self, name: Seq<char>) -> FunctionView {
        FunctionView {
            blocks: self.blocks.push(
                BlockView {
                    name,
                    instructions: seq![],
                    terminal: TerminalInstruction::Missing,
                },
            ),
            layout: self.layout.push(self.blocks.len() as usize),
            ..self
        }
    }

    /// The function with `terminal` registered for `block`, if it owns it.
    pub open spec fn with_terminal(self, block: Block, terminal: TerminalInstruction) -> FunctionView {
        if self.owns(block) {
            FunctionView {
                blocks: self.blocks.update(
                    block.index as int,
                    self.blocks[block.index as int].with_terminal(terminal),
                ),
                ..self
            }
        } else {
            self
        }
    }

    /// The terminal registered for `block`: none for a block of another
    /// function, or between a removal and the next registration.
    pub open spec fn terminal(self, block: Block) -> Option<TerminalInstruction> {
        if self.owns(block) && self.blocks[block.index as int].terminal
            != TerminalInstruction::Missing {
            Some(self.blocks[block.index as int].terminal)
        } else {
            None
        }
    }

    pub open spec fn with_learned_value(self, value: Value) -> FunctionView {
        FunctionView { learned_values: self.learned_values.push(value), ..self }
    }

}

impl Function {
    /// Adds a block of the given name, without a terminal, and returns its
    /// handle.
    pub fn add_block(&mut self, name: &str) -> (block: Block)
        ensures
            final(self)@ == old(self)@.with_block(name@),
            final(self).blocks@.len() == old(self).blocks@.len() + 1,
            block == old(self)@.next_block(),
    {
        let index = self.blocks.len();
        let data = BlockData {
            name: String::from_str(name),
            instructions: Vec::new(),
            terminal: TerminalInstruction::Missing,
        };
        assert(data@.instructions =~= seq![]);
        self.blocks.push(data);
        self.layout.push(index);
        assert(final(self)@.blocks =~= old(self)@.with_block(name@).blocks);
        Block { parent: self.function, index }
    }

    /// Registers `terminal` for `block` in place of whatever was registered.
    /// A block of another function is left alone.
    pub fn set_block_terminal(&mut self, block: Block, terminal: TerminalInstruction)
        ensures
            final(self)@ == old(self)@.with_terminal(block, terminal),
    {
        if block.parent == self.function && block.index < self.blocks.len() {
            self.blocks[block.index].terminal = terminal;
            assert(final(self)@.blocks =~= old(self)@.with_terminal(block, terminal).blocks);
        }
    }

    pub fn get_block_terminal(&self, block: Block) -> (result: Option<TerminalInstruction>)
        ensures
            result == self@.terminal(block),
    {
        if block.parent == self.function && block.index < self.blocks.len() {
            let terminal = self.blocks[block.index].terminal;
            match terminal {
                TerminalInstruction::Missing => None,
                _ => Some(terminal),
            }
        } else {
            None
        }
    }

    /// The terminal registered for `block`, to change it.
    pub fn get_block_terminal_mut(&mut self, block: Block) -> (result: Option<
        &mut TerminalInstruction,
    >)
        ensures
            result is Some == old(self)@.terminal(block) is Some,
            result is None ==> *final(self) == *old(self),
            result matches Some(terminal) ==> {
                &&& Some(*terminal) == old(self)@.terminal(block)
                &&& block.index < old(self).blocks@.len()
                &&& final(self).blocks@.len() == old(self).blocks@.len()
                &&& final(self).blocks@[block.index as int].terminal == *final(terminal)
                &&& final(self).blocks@[block.index as int].instructions == old(self).blocks@[block.index as int].instructions
                &&& final(self).blocks@[block.index as int].name == old(self).blocks@[block.index as int].name
                &&& forall|i: int|
                    0 <= i < old(self).blocks@.len() && i != block.index ==> final(self).blocks@[i] == old(self).blocks@[i]
                &&& final(self).layout == old(self).layout
                &&& final(self).argument_types == old(self).argument_types
                &&& final(self).argument_values == old(self).argument_values
                &&& final(self).function == old(self).function
                &&& final(self).learned_values == old(self).learned_values
                &&& final(self).name == old(self).name
                &&& final(self).return_type == old(self).return_type
                &&& final(self).check_arguments == old(self).check_arguments
            },
    {
        if block.parent == self.function && block.index < self.blocks.len() {
            match self.blocks[block.index].terminal {
                TerminalInstruction::Missing => None,
                _ => {
                    let terminal = &mut self.blocks[block.index].terminal;
                    Some(terminal)
                },
            }
        } else {
            None
        }
    }

    /// Removes the terminal registered for `block`.
    pub fn delete_block_terminal(&mut self, block: Block)
        ensures
            final(self)@ == old(self)@.with_terminal(block, TerminalInstruction::Missing),
    {
        self.set_block_terminal(block, TerminalInstruction::Missing);
    }

    /// Whether `block` still carries the placeholder it was created with.
    pub fn has_default_block_terminal(&self, block: Block) -> (result: bool)
        ensures
            result == (self@.terminal(block) == Some(TerminalInstruction::Default)),
    {
        match self.get_block_terminal(block) {
            Some(TerminalInstruction::Default) => true,
            _ => false,
        }
    }

    pub fn add_learned_value(&mut self, value: Value)
        ensures
            final(self)@ == old(self)@.with_learned_value(value),
    {
        self.learned_values.push(value);
    }

    pub fn get_argument(&self, index: usize) -> (result: Value)
        requires
            index < self@.argument_values.len(),
        ensures
            result == self@.argument_values[index as int],
    {
        self.argument_values[index]
    }

    pub fn get_function(&self) -> (result: usize)
        ensures
            result == self.function,
    {
        self.function
    }
}

#[derive(Clone, Debug)]
pub struct FunctionKey {
    pub name: String,
}

impl View for FunctionKey {
    type V = Seq<char>;

    open spec fn view(&self) -> Seq<char> {
        self.name@
    }
}

impl PartialEq for FunctionKey {
    fn eq(&self, other: &Self) -> (result: bool) {
        self.name == other.name
    }
}

impl Eq for FunctionKey {

}

impl vstd::std_specs::cmp::PartialEqSpecImpl for FunctionKey {
    open spec fn obeys_eq_spec() -> bool {
        true
    }

    open spec fn eq_spec(&self, other: &Self) -> bool {
        self.name@ == other.name@
    }
}

impl FunctionKey {
    pub fn new(name: &str) -> (result: Self)
        ensures
            result@ == name@,
    {
        FunctionKey { name: String::from_str(name) }
    }
}

/// The position of the last function called `name`, if there is one: a later
/// function of the same name hides an earlier one.
pub open spec fn find_function(functions: Seq<FunctionView>, name: Seq<char>) -> Option<int>
    decreases functions.len(),
{
    if functions.len() == 0 {
        None
    } else if functions.last().name == name {
        Some(functions.len() - 1)
    } else {
        find_function(functions.drop_last(), name)
    }
}

#[derive(Debug)]
pub struct FunctionTable {
    pub functions: Vec<Function>,
}

impl View for FunctionTable {
    type V = Seq<FunctionView>;

    open spec fn view(&self) -> Seq<FunctionView> {
        self.functions@.map_values(|f: Function| f@)
    }
}

impl Default for FunctionTable {
    fn default() -> (result: Self)
        ensures
            result@ == Seq::<FunctionView>::empty(),
    {
        let result = FunctionTable { functions: Vec::new() };
        assert(result@ =~= Seq::<FunctionView>::empty());
        result
    }
}

impl FunctionTable {
    /// Appends `function` under `name`, which becomes its name, hiding any
    /// earlier function of that name, and returns the key that now finds it.
    pub fn add_function(&mut self, name: &str, function: Function) -> (key: FunctionKey)
        ensures
            final(self)@ == old(self)@.push(FunctionView { name: name@, ..function@ }),
            find_function(final(self)@, name@) == Some(old(self)@.len() as int),
            key@ == name@,
    {
        let mut function = function;
        function.name = String::from_str(name);
        let ghost added = function@;
        self.functions.push(function);
        proof {
            assert(final(self)@ =~= old(self)@.push(added));
            assert(final(self)@.drop_last() =~= old(self)@);
        }
        FunctionKey::new(name)
    }

    /// The function that `key` finds, to change it.
    pub fn get_function_mut(&mut self, key: &FunctionKey) -> (result: Option<&mut Function>)
        ensures
            result is Some == find_function(old(self)@, key@) is Some,
            result is None ==> *final(self) == *old(self),
            result matches Some(function) ==> {
                let index = find_function(old(self)@, key@).unwrap();
                &&& 0 <= index < old(self).functions@.len()
                &&& *function == old(self).functions@[index]
                &&& final(self).functions@ == old(self).functions@.update(index, *final(function))
            },
    {
        match self.index_of(key) {
            Some(index) => Some(&mut self.functions[index]),
            None => None,
        }
    }

    /// The position of the function that `key` finds.
    pub fn index_of(&self, key: &FunctionKey) -> (result: Option<usize>)
        ensures
            result is Some == find_function(self@, key@) is Some,
            result matches Some(i) ==> find_function(self@, key@) == Some(i as int) && i
                < self@.len(),
    {
        let mut i = self.functions.len();
        proof {
            assert(self@.take(self@.len() as int) =~= self@);
        }
        while i > 0
            invariant
                i <= self.functions@.len(),
                find_function(self@, key@) == find_function(self@.take(i as int), key@),
            decreases i,
        {
            proof {
                assert(self@.take(i as int).drop_last() =~= self@.take(i as int - 1));
            }
            if self.functions[i - 1].name == key.name {
                return Some(i - 1);
            }
            i -= 1;
        }
        None
    }

    pub fn get_function(&self, key: &FunctionKey) -> (result: Option<&Function>)
        ensures
            result is Some == find_function(self@, key@) is Some,
            result matches Some(function) ==> function@ == self@[find_function(
                self@,
                key@,
            ).unwrap()],
    {
        match self.index_of(key) {
            Some(index) => Some(&self.functions[index]),
            None => None,
        }
    }

    /// The key of the function at position `function`.
    pub fn get_function_by_ref_mut(&self, function: usize) -> (result: Option<FunctionKey>)
        ensures
            result is Some == (function < self@.len()),
            result matches Some(key) ==> key@ == self@[function as int].name,
    {
        self.get_function_by_ref(function)
    }

    /// The key of the function at position `function`.
    pub fn get_function_by_ref(&self, function: usize) -> (result: Option<FunctionKey>)
        ensures
            result is Some == (function < self@.len()),
            result matches Some(key) ==> key@ == self@[function as int].name,
    {
        if function < self.functions.len() {
            Some(FunctionKey { name: self.functions[function].name.clone() })
        } else {
            None
        }
    }
}

impl ModuleView {
    /// The module after `value` was added to the learned values of the
    /// function at position `function`.
    pub open spec fn with_learned_value(self, function: int, value: Value) -> ModuleView {
        ModuleView {
            functions: self.functions.update(
                function,
                self.functions[function].with_learned_value(value),
            ),
            ..self
        }
    }

    /// The module after a function of that name and signature was declared,
    /// behind all others.
    pub open spec fn declare_function(
        self,
        name: Seq<char>,
        argument_types: Seq<Type>,
        return_type: Type,
        check_arguments: bool,
    ) -> ModuleView {
        self.with_function(
            FunctionView::declared(
                self.functions.len() as usize,
                name,
                argument_types,
                return_type,
                check_arguments,
            ),
        )
    }
}

impl Module {
    /// Records that `value` is a learned value of the function at position
    /// `function`.
    pub fn add_learned_value_at(&mut self, function: usize, value: Value)
        requires
            function < old(self)@.functions.len(),
        ensures
            final(self)@ == old(self)@.with_learned_value(function as int, value),
            final(self)@.terminals() == old(self)@.terminals(),
            old(self)@.wf() ==> final(self)@.wf(),
    {
        self.function_table.functions[function].add_learned_value(value);
        proof {
            let before = old(self)@;
            let after = final(self)@;
            let expected = before.with_learned_value(function as int, value);
            assert(after.functions =~= expected.functions);
            assert(after.terminals() =~~= before.terminals());
            if before.wf() {
                lemma_same_order(before.functions, after.functions);
            }
        }
    }

    /// Declares a function and returns the key that finds it. Calls of the
    /// function are held to its parameters where `check_arguments` is set.
    pub fn declare_function(
        &mut self,
        name: &str,
        arg_types: &Vec<Type>,
        return_type: Type,
        check_arguments: bool,
    ) -> (key: FunctionKey)
        ensures
            final(self)@ == old(self)@.declare_function(
                name@,
                arg_types@,
                return_type,
                check_arguments,
            ),
            final(self)@.terminals() == old(self)@.terminals().push(seq![]),
            final(self)@.find_function(name@) == Some(old(self)@.functions.len() as int),
            key@ == name@,
            old(self)@.wf() ==> final(self)@.wf(),
    {
        let function = self.function_table.functions.len();
        let mut argument_types = Vec::new();
        let mut argument_values = Vec::new();
        let mut i: usize = 0;
        while i < arg_types.len()
            invariant
                i <= arg_types@.len(),
                argument_types@ == arg_types@.take(i as int),
                argument_values@ == FunctionView::arguments(function, arg_types@.take(i as int)),
            decreases arg_types@.len() - i,
        {
            argument_types.push(arg_types[i]);
            argument_values.push(
                Value {
                    type_enum: arg_types[i],
                    value: ValueRef::Argument { function, index: i },
                },
            );
            proof {
                assert(argument_types@ =~= arg_types@.take(i + 1));
                assert(argument_values@ =~= FunctionView::arguments(
                    function,
                    arg_types@.take(i + 1),
                ));
            }
            i += 1;
        }
        proof {
            assert(arg_types@.take(i as int) =~= arg_types@);
        }
        let declared = Function {
            blocks: Vec::new(),
            layout: Vec::new(),
            argument_types,
            argument_values,
            function,
            learned_values: Vec::new(),
            name: String::from_str(name),
            return_type,
            check_arguments,
        };
        proof {
            assert(declared@.blocks =~= seq![]);
            assert(declared@ == FunctionView::declared(
                function,
                name@,
                arg_types@,
                return_type,
                check_arguments,
            ));
        }
        let key = self.function_table.add_function(name, declared);
        proof {
            let before = old(self)@;
            let after = final(self)@;
            assert(after.functions.drop_last() =~= before.functions);
            assert(after.terminals() =~~= before.terminals().push(seq![]));
            if before.wf() {
                assert forall|g: int, i: int|
                    0 <= g < after.terminals().len() && 0 <= i
                        < after.terminals()[g].len() implies crate::module::settled(
                    #[trigger] after.terminals()[g][i],
                ) by {
                    assert(after.terminals()[g] == before.terminals()[g]);
                }
                reveal(ordered);
                assert(after.functions[function as int].layout =~= seq![]);
                assert forall|g: int| 0 <= g < after.functions.len() implies (
                #[trigger] after.functions[g]).function == g && placed(
                    after.functions[g].layout,
                    after.functions[g].blocks.len(),
                ) by {
                    if g < before.functions.len() {
                        assert(after.functions[g] == before.functions[g]);
                    }
                }
            }
        }
        key
    }

    /// Declares a function of the source, under its transformed name.
    pub fn create_function(&mut self, name: &str, arg_types: &Vec<Type>, return_type: Type) -> (key:
        FunctionKey)
        ensures
            final(self)@ == old(self)@.declare_function(
                "_"@ + name@,
                arg_types@,
                return_type,
                true,
            ),
            final(self)@.terminals() == old(self)@.terminals().push(seq![]),
            final(self)@.find_function(key@) == Some(old(self)@.functions.len() as int),
            key@ == "_"@ + name@,
            old(self)@.wf() ==> final(self)@.wf(),
    {
        let transformed = self.transform_function_name(name);
        self.declare_function(transformed.as_str(), arg_types, return_type, true)
    }

    /// Declares a function that is defined elsewhere, under its own name.
    pub fn create_extern_function(&mut self, name: &str, arg_types: &Vec<Type>, return_type: Type) -> (key:
        FunctionKey)
        ensures
            final(self)@ == old(self)@.declare_function(name@, arg_types@, return_type, true),
            final(self)@.terminals() == old(self)@.terminals().push(seq![]),
            final(self)@.find_function(key@) == Some(old(self)@.functions.len() as int),
            key@ == name@,
            old(self)@.wf() ==> final(self)@.wf(),
    {
        self.declare_function(name, arg_types, return_type, true)
    }
}

} // verus!
