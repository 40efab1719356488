//! Variables by scope and name: a function's own variables, and behind them
//! the module's.

use vstd::prelude::*;

use crate::block::{Block, Instruction, InstructionView, Opcode, Value, ValueRef};
use crate::module::{Global, GlobalView, Module, ModuleView};
use crate::types::{outcome, MathError, MathErrorView, Type};

verus! {

#[derive(Debug)]
pub struct Variable {
    pub type_enum: Type,
    pub is_mutable: bool,
    pub name: String,
    /// Where the variable's value is found: the address of its storage, or
    /// for a parameter the argument itself.
    pub value: Value,
}

pub struct VariableView {
    pub type_enum: Type,
    pub is_mutable: bool,
    pub name: Seq<char>,
    pub value: Value,
}

impl View for Variable {
    type V = VariableView;

    open spec fn view(&self) -> VariableView {
        VariableView {
            type_enum: self.type_enum,
            is_mutable: self.is_mutable,
            name: self.name@,
            value: self.value,
        }
    }
}

/// A scope: the position of a function, or `None` for the module itself.
pub type Scope = Option<usize>;

/// A variable together with the scope it was declared in.
#[derive(Debug)]
pub struct Binding {
    pub scope: Scope,
    pub variable: Variable,
}

/// The variables that a sequence of declarations leaves visible: a later
/// declaration of a name in a scope replaces an earlier one.
pub open spec fn visible_variables(bindings: Seq<Binding>) -> Map<(Scope, Seq<char>), VariableView>
    decreases bindings.len(),
{
    if bindings.len() == 0 {
        Map::empty()
    } else {
        visible_variables(bindings.drop_last()).insert(
            (bindings.last().scope, bindings.last().variable.name@),
            bindings.last().variable@,
        )
    }
}

#[derive(Debug)]
pub struct VariableTable {
    pub variables: Vec<Binding>,
}

impl View for VariableTable {
    type V = Map<(Scope, Seq<char>), VariableView>;

    open spec fn view(&self) -> Map<(Scope, Seq<char>), VariableView> {
        visible_variables(self.variables@)
    }
}

impl Default for VariableTable {
    fn default() -> (result: Self)
        ensures
            result@ == Map::<(Scope, Seq<char>), VariableView>::empty(),
    {
        VariableTable { variables: Vec::new() }
    }
}

impl VariableTable {
    /// Declares `variable` in `function`'s scope, or in the module's.
    pub fn add(&mut self, function: Scope, variable: Variable)
        ensures
            final(self)@ == old(self)@.insert((function, variable@.name), variable@),
    {
        self.variables.push(Binding { scope: function, variable });
        assert(final(self).variables@.drop_last() =~= old(self).variables@);
    }

    /// The variable called `name` in exactly that scope.
    pub fn get(&self, function: Scope, name: &str) -> (result: Option<&Variable>)
        ensures
            result is Some == self@.contains_key((function, name@)),
            result matches Some(variable) ==> variable@ == self@[(function, name@)],
    {
        let ghost key = (function, name@);
        let wanted = String::from_str(name);
        let mut i = self.variables.len();
        proof {
            assert(self.variables@.take(i as int) =~= self.variables@);
        }
        while i > 0
            invariant
                i <= self.variables@.len(),
                wanted@ == name@,
                key == (function, name@),
                self@.contains_key(key) == visible_variables(
                    self.variables@.take(i as int),
                ).contains_key(key),
                self@.contains_key(key) ==> self@[key] == visible_variables(
                    self.variables@.take(i as int),
                )[key],
            decreases i,
        {
            proof {
                assert(self.variables@.take(i as int).drop_last() =~= self.variables@.take(
                    i as int - 1,
                ));
            }
            let binding = &self.variables[i - 1];
            if binding.scope == function && binding.variable.name == wanted {
                return Some(&binding.variable);
            }
            i -= 1;
        }
        None
    }
}

impl Type {
    /// Whether values of this type can be stored in a variable: floats and
    /// integers, at a pointer depth that leaves room for the address.
    pub open spec fn storable(self) -> bool {
        (self is Float || self is Integer) && self.pointer_number() < u8::MAX
    }

    /// The type of the address of a value of this type.
    pub open spec fn address(self) -> Type {
        self.with_pointer_number((self.pointer_number() + 1) as u8)
    }

    /// The type of what an address of this type points to.
    pub open spec fn target(self) -> Type {
        self.with_pointer_number((self.pointer_number() - 1) as u8)
    }

    /// Whether this is the type of an address that a value can be stored to.
    pub open spec fn stores(self) -> bool {
        (self is Float || self is Integer) && self.pointer_number() > 0
    }

    pub fn is_storable(self) -> (result: bool)
        ensures
            result == self.storable(),
    {
        match self {
            Type::Float(number) => number < u8::MAX,
            Type::Integer(number, _) => number < u8::MAX,
            _ => false,
        }
    }

    pub fn is_stored_to(self) -> (result: bool)
        ensures
            result == self.stores(),
    {
        match self {
            Type::Float(number) => number > 0,
            Type::Integer(number, _) => number > 0,
            _ => false,
        }
    }
}

impl ModuleView {
    /// The module after a variable was given storage on the stack in
    /// `block` and declared in the scope of the block's function, and the
    /// address of that storage.
    pub open spec fn add_variable(
        self,
        block: Block,
        name: Seq<char>,
        type_enum: Type,
        is_mutable: bool,
    ) -> (ModuleView, Value) {
        let value = Value { type_enum: type_enum.address(), value: self.next_value(block) };
        (
            self.emit(block, InstructionView::nullary(Opcode::Allocate, type_enum)).with_variable(
                Some(block.parent),
                VariableView { type_enum, is_mutable, name, value },
            ),
            value,
        )
    }

    /// The module after an array of `element_count` floats was given
    /// storage on the stack in `block`, and the array.
    pub open spec fn add_immutable_array(self, block: Block, element_count: usize) -> (
        ModuleView,
        Value,
    ) {
        (
            self.emit(
                block,
                InstructionView::nullary(Opcode::Allocate, Type::FloatArray(element_count)),
            ),
            Value { type_enum: Type::FloatArray(element_count), value: self.next_value(block) },
        )
    }

    /// The module after a variable of the module itself was declared, and
    /// its address.
    pub open spec fn add_global_variable(self, name: Seq<char>, type_enum: Type) -> (
        ModuleView,
        Value,
    ) {
        let value = Value {
            type_enum: type_enum.address(),
            value: ValueRef::Global { index: self.globals.len() as usize },
        };
        (
            ModuleView {
                globals: self.globals.push(GlobalView { name, type_enum, initializer: None }),
                ..self
            }.with_variable(None, VariableView { type_enum, is_mutable: true, name, value }),
            value,
        )
    }

    /// Where the variable `name` is found, as seen from `block`: in the
    /// scope of the block's function, else in the module's.
    pub open spec fn get_variable(self, block: Block, name: Seq<char>) -> Result<
        Value,
        MathErrorView,
    > {
        if self.variables.contains_key((Some(block.parent), name)) {
            Ok(self.variables[(Some(block.parent), name)].value)
        } else if self.variables.contains_key((None, name)) {
            Ok(self.variables[(None, name)].value)
        } else {
            Err(MathErrorView::UndefinedVariable(name))
        }
    }

    /// The module after `value`, resolved and converted to the kind of the
    /// location, was stored to `location`. A location that is no address of
    /// a number, or a value that does not convert, leaves the module as it
    /// is. A value whose converted type is not what the location points to
    /// is refused after its conversion.
    pub open spec fn add_store(self, block: Block, location: Value, value: Value) -> (
        ModuleView,
        Result<Value, MathErrorView>,
    ) {
        if !location.type_enum.stores() || !value.type_enum.resolved().convertible(
            location.type_enum,
        ) {
            (self, Err(MathErrorView::UnsupportedOperation))
        } else {
            let (after, value) = self.math_resolve_value(block, value, location.type_enum);
            if value.type_enum != location.type_enum.target() {
                (
                    after,
                    Err(MathErrorView::IncompatibleTypes(location.type_enum, value.type_enum)),
                )
            } else {
                (
                    after.emit(
                        block,
                        InstructionView::binary(
                            Opcode::Store,
                            Type::Void,
                            value.value,
                            location.value,
                        ),
                    ),
                    Ok(Value { type_enum: Type::Void, value: after.next_value(block) }),
                )
            }
        }
    }

    /// The module after `value`, resolved and converted to a float, was
    /// stored to element `index` of `array`.
    pub open spec fn add_store_to_array(self, block: Block, array: Value, index: usize, value: Value) -> (
        ModuleView,
        Result<Value, MathErrorView>,
    ) {
        if !(array.type_enum is FloatArray) || !value.type_enum.resolved().convertible(
            Type::Float(0),
        ) {
            (self, Err(MathErrorView::UnsupportedOperation))
        } else {
            let (after, value) = self.math_resolve_value(block, value, Type::Float(0));
            if value.type_enum != Type::Float(0) {
                (after, Err(MathErrorView::IncompatibleTypes(Type::Float(0), value.type_enum)))
            } else {
                let with_address = after.emit(
                    block,
                    InstructionView::unary(
                        Opcode::ElementAddress(index),
                        Type::Float(1),
                        array.value,
                    ),
                );
                (
                    with_address.emit(
                        block,
                        InstructionView::binary(
                            Opcode::Store,
                            Type::Void,
                            value.value,
                            after.next_value(block),
                        ),
                    ),
                    Ok(Value { type_enum: Type::Void, value: with_address.next_value(block) }),
                )
            }
        }
    }

    /// The module after a parameter was declared as a variable of the
    /// block's function, bound to the argument itself.
    pub open spec fn add_argument(self, block: Block, name: Seq<char>, type_enum: Type, value: Value) -> ModuleView {
        self.with_variable(
            Some(block.parent),
            VariableView { type_enum, is_mutable: true, name, value },
        )
    }
}

impl Module {
    fn add_variable(&mut self, block: Block, name: &str, type_enum: Type, is_mutable: bool) -> (result:
        Value)
        requires
            old(self)@.has_block(block),
            type_enum.storable(),
        ensures
            (final(self)@, result) == old(self)@.add_variable(
                block,
                name@,
                type_enum,
                is_mutable,
            ),
            final(self)@.terminals() == old(self)@.terminals(),
            old(self)@.wf() ==> final(self)@.wf(),
    {
        let address = self.upgrade_type(type_enum);
        let storage = self.emit(block, Instruction::nullary(Opcode::Allocate, type_enum));
        let value = Value { type_enum: address, value: storage };
        self.variable_table.add(
            Some(block.parent),
            Variable { type_enum, is_mutable, name: String::from_str(name), value },
        );
        value
    }

    pub fn add_immutable_variable(&mut self, block: Block, name: &str, type_enum: Type) -> (result:
        Value)
        requires
            old(self)@.has_block(block),
            type_enum.storable(),
        ensures
            (final(self)@, result) == old(self)@.add_variable(block, name@, type_enum, false),
            final(self)@.terminals() == old(self)@.terminals(),
            old(self)@.wf() ==> final(self)@.wf(),
    {
        self.add_variable(block, name, type_enum, false)
    }

    pub fn add_mutable_variable(&mut self, block: Block, name: &str, type_enum: Type) -> (result:
        Value)
        requires
            old(self)@.has_block(block),
            type_enum.storable(),
        ensures
            (final(self)@, result) == old(self)@.add_variable(block, name@, type_enum, true),
            final(self)@.terminals() == old(self)@.terminals(),
            old(self)@.wf() ==> final(self)@.wf(),
    {
        self.add_variable(block, name, type_enum, true)
    }

    /// Gives an array of `element_count` elements of type `type_enum`
    /// storage on the stack. Only floats have an array type.
    pub fn add_immutable_array(&mut self, block: Block, type_enum: Type, element_count: usize) -> (result:
        Value)
        requires
            old(self)@.has_block(block),
            type_enum is Float,
        ensures
            (final(self)@, result) == old(self)@.add_immutable_array(block, element_count),
            final(self)@.terminals() == old(self)@.terminals(),
            old(self)@.wf() ==> final(self)@.wf(),
    {
        let array_type = type_enum.to_array(element_count);
        let storage = self.emit(block, Instruction::nullary(Opcode::Allocate, array_type));
        Value { type_enum: array_type, value: storage }
    }

    pub fn add_global_variable(&mut self, name: &str, type_enum: Type) -> (result: Value)
        requires
            type_enum.storable(),
        ensures
            (final(self)@, result) == old(self)@.add_global_variable(name@, type_enum),
            final(self)@.terminals() == old(self)@.terminals(),
            old(self)@.wf() ==> final(self)@.wf(),
    {
        let address = self.upgrade_type(type_enum);
        let index = self.globals.len();
        self.globals.push(Global { name: String::from_str(name), type_enum, initializer: None });
        let value = Value { type_enum: address, value: ValueRef::Global { index } };
        self.variable_table.add(
            None,
            Variable { type_enum, is_mutable: true, name: String::from_str(name), value },
        );
        proof {
            assert(final(self)@.globals =~= old(self)@.globals.push(
                GlobalView { name: name@, type_enum, initializer: None },
            ));
        }
        value
    }

    pub fn get_variable(&self, block: Block, name: &str) -> (result: Result<Value, MathError>)
        ensures
            outcome(result) == self@.get_variable(block, name@),
    {
        if let Some(variable) = self.variable_table.get(Some(block.parent), name) {
            return Ok(variable.value);
        }
        if let Some(variable) = self.variable_table.get(None, name) {
            return Ok(variable.value);
        }
        Err(MathError::UndefinedVariable(String::from_str(name)))
    }

    pub fn add_store(&mut self, block: Block, location: Value, value: Value) -> (result: Result<
        Value,
        MathError,
    >)
        requires
            old(self)@.has_block(block),
        ensures
            (final(self)@, outcome(result)) == old(self)@.add_store(block, location, value),
            final(self)@.terminals() == old(self)@.terminals(),
            old(self)@.wf() ==> final(self)@.wf(),
    {
        if !location.type_enum.is_stored_to() || !value.type_enum.to_resolved().can_convert_to(
            location.type_enum,
        ) {
            return Err(MathError::UnsupportedOperation);
        }
        let value = self.math_resolve_value(block, value, location.type_enum);
        let target = self.downgrade_type(location.type_enum);
        if value.type_enum != target {
            return Err(MathError::IncompatibleTypes(location.type_enum, value.type_enum));
        }
        let stored = self.emit(
            block,
            Instruction::binary(Opcode::Store, Type::Void, value.value, location.value),
        );
        Ok(Value { type_enum: Type::Void, value: stored })
    }

    pub fn add_store_to_array(&mut self, block: Block, array: Value, index: usize, value: Value) -> (result:
        Result<Value, MathError>)
        requires
            old(self)@.has_block(block),
        ensures
            (final(self)@, outcome(result)) == old(self)@.add_store_to_array(
                block,
                array,
                index,
                value,
            ),
            final(self)@.terminals() == old(self)@.terminals(),
            old(self)@.wf() ==> final(self)@.wf(),
    {
        let scalar = match array.type_enum {
            Type::FloatArray(_) => array.type_enum.to_scalar(),
            _ => { return Err(MathError::UnsupportedOperation); },
        };
        if !value.type_enum.to_resolved().can_convert_to(scalar) {
            return Err(MathError::UnsupportedOperation);
        }
        let value = self.math_resolve_value(block, value, scalar);
        if value.type_enum != scalar {
            return Err(MathError::IncompatibleTypes(scalar, value.type_enum));
        }
        let element = self.emit(
            block,
            Instruction::unary(Opcode::ElementAddress(index), Type::Float(1), array.value),
        );
        let stored = self.emit(
            block,
            Instruction::binary(Opcode::Store, Type::Void, value.value, element),
        );
        Ok(Value { type_enum: Type::Void, value: stored })
    }

    pub fn add_argument(&mut self, block: Block, name: &str, type_enum: Type, value: Value)
        ensures
            final(self)@ == old(self)@.add_argument(block, name@, type_enum, value),
            final(self)@.terminals() == old(self)@.terminals(),
            old(self)@.wf() ==> final(self)@.wf(),
    {
        self.variable_table.add(
            Some(block.parent),
            Variable { type_enum, is_mutable: true, name: String::from_str(name), value },
        );
    }
}

} // verus!
