//! Struct types: their properties by name, and the instructions that
//! allocate a struct and store to one of its properties.

use vstd::prelude::*;

use crate::block::{Block, Instruction, InstructionView, Opcode, Value, ValueRef};
use crate::function_table::FunctionKey;
use crate::module::{Module, ModuleView};
use crate::types::{outcome, MathError, MathErrorView, Type};

verus! {

#[derive(Debug)]
pub struct Property {
    pub name: String,
    pub type_enum: Type,
}

pub struct PropertyView {
    pub name: Seq<char>,
    pub type_enum: Type,
}

impl View for Property {
    type V = PropertyView;

    open spec fn view(&self) -> PropertyView {
        PropertyView { name: self.name@, type_enum: self.type_enum }
    }
}

/// A struct type: its name and its properties in the order of their
/// declaration, which is the order of the fields in memory.
#[derive(Debug)]
pub struct StructType {
    pub name: String,
    pub properties: Vec<Property>,
}

pub struct StructTypeView {
    pub name: Seq<char>,
    pub properties: Seq<PropertyView>,
}

impl View for StructType {
    type V = StructTypeView;

    open spec fn view(&self) -> StructTypeView {
        StructTypeView {
            name: self.name@,
            properties: self.properties@.map_values(|p: Property| p@),
        }
    }
}

/// The position of the last property called `name`.
pub open spec fn find_property(properties: Seq<PropertyView>, name: Seq<char>) -> Option<int>
    decreases properties.len(),
{
    if properties.len() == 0 {
        None
    } else if properties.last().name == name {
        Some(properties.len() - 1)
    } else {
        find_property(properties.drop_last(), name)
    }
}

/// The position of the last struct type called `name`: a later declaration
/// replaces an earlier one of the same name.
pub open spec fn find_struct(structs: Seq<StructTypeView>, name: Seq<char>) -> Option<int>
    decreases structs.len(),
{
    if structs.len() == 0 {
        None
    } else if structs.last().name == name {
        Some(structs.len() - 1)
    } else {
        find_struct(structs.drop_last(), name)
    }
}

#[derive(Debug)]
pub struct TypeTable {
    pub structs: Vec<StructType>,
}

impl View for TypeTable {
    type V = Seq<StructTypeView>;

    open spec fn view(&self) -> Seq<StructTypeView> {
        self.structs@.map_values(|s: StructType| s@)
    }
}

impl Default for TypeTable {
    fn default() -> (result: Self)
        ensures
            result@ == Seq::<StructTypeView>::empty(),
    {
        let result = TypeTable { structs: Vec::new() };
        assert(result@ =~= Seq::<StructTypeView>::empty());
        result
    }
}

impl StructType {
    /// The position of the property called `name`.
    pub fn property_index(&self, name: &str) -> (result: Option<usize>)
        ensures
            result is Some == find_property(self@.properties, name@) is Some,
            result matches Some(at) ==> find_property(self@.properties, name@) == Some(at as int)
                && at < self@.properties.len(),
    {
        let wanted = String::from_str(name);
        let mut i = self.properties.len();
        proof {
            assert(self@.properties.take(i as int) =~= self@.properties);
        }
        while i > 0
            invariant
                i <= self.properties@.len(),
                wanted@ == name@,
                find_property(self@.properties, name@) == find_property(
                    self@.properties.take(i as int),
                    name@,
                ),
            decreases i,
        {
            proof {
                assert(self@.properties.take(i as int).drop_last() =~= self@.properties.take(
                    i as int - 1,
                ));
            }
            if self.properties[i - 1].name == wanted {
                return Some(i - 1);
            }
            i -= 1;
        }
        None
    }
}

impl TypeTable {
    /// The position of the struct type called `name`.
    pub fn index_of(&self, name: &str) -> (result: Option<usize>)
        ensures
            result is Some == find_struct(self@, name@) is Some,
            result matches Some(at) ==> find_struct(self@, name@) == Some(at as int) && at
                < self@.len(),
    {
        let wanted = String::from_str(name);
        let mut i = self.structs.len();
        proof {
            assert(self@.take(i as int) =~= self@);
        }
        while i > 0
            invariant
                i <= self.structs@.len(),
                wanted@ == name@,
                find_struct(self@, name@) == find_struct(self@.take(i as int), name@),
            decreases i,
        {
            proof {
                assert(self@.take(i as int).drop_last() =~= self@.take(i as int - 1));
            }
            if self.structs[i - 1].name == wanted {
                return Some(i - 1);
            }
            i -= 1;
        }
        None
    }
}

/// The name of the function that allocates memory.
pub open spec fn allocator() -> Seq<char> {
    "malloc"@
}

impl ModuleView {
    pub open spec fn find_struct(self, name: Seq<char>) -> Option<int> {
        find_struct(self.types, name)
    }

    /// The module after a struct type was declared.
    pub open spec fn create_struct_type(self, name: Seq<char>, properties: Seq<PropertyView>) -> ModuleView {
        ModuleView { types: self.types.push(StructTypeView { name, properties }), ..self }
    }

    /// The argument of the allocation of a struct of type `index`: its size
    /// in bytes, as a 32-bit integer.
    pub open spec fn struct_size(index: int) -> Value {
        Value {
            type_enum: Type::Integer(0, 32),
            value: ValueRef::StructSize { index: index as usize },
        }
    }

    /// Whether a struct of type `name` can be allocated: the type is
    /// declared, and so is the allocator, which takes the size.
    pub open spec fn can_allocate(self, name: Seq<char>) -> bool {
        &&& self.find_struct(name) matches Some(index)
        &&& self.find_function(allocator()) matches Some(function)
        &&& self.functions[function].call_error(seq![Self::struct_size(index)]) is None
    }

    /// The module after a struct of type `name` was allocated in `block`,
    /// and the address of the struct.
    pub open spec fn add_struct_malloc(self, block: Block, name: Seq<char>) -> (ModuleView, Value) {
        let index = self.find_struct(name).unwrap();
        let (after, address) = self.add_function_call(
            block,
            self.find_function(allocator()).unwrap(),
            seq![Self::struct_size(index)],
        );
        (after, Value { type_enum: Type::Struct(1, index as usize), value: address.value })
    }

    /// The module after `value` was stored to the property `property` of
    /// the struct `obj`. What is no struct has no properties; a struct has
    /// those of its type.
    pub open spec fn add_store_to_obj(self, block: Block, obj: Value, property: Seq<char>, value: Value) -> (
        ModuleView,
        Result<Value, MathErrorView>,
    ) {
        match obj.type_enum {
            Type::Struct(_, index) => if index >= self.types.len() {
                (self, Err(MathErrorView::UnsupportedOperation))
            } else {
                match find_property(self.types[index as int].properties, property) {
                    None => (self, Err(MathErrorView::UndefinedVariable(property))),
                    Some(at) => {
                        let property_type = self.types[index as int].properties[at].type_enum;
                        let located = self.emit(
                            block,
                            InstructionView::unary(
                                Opcode::FieldAddress(index, at as usize),
                                property_type,
                                obj.value,
                            ),
                        );
                        (
                            located.emit(
                                block,
                                InstructionView::binary(
                                    Opcode::Store,
                                    Type::Void,
                                    value.value,
                                    self.next_value(block),
                                ),
                            ),
                            Ok(Value { type_enum: property_type, value: located.next_value(block) }),
                        )
                    },
                }
            },
            _ => (self, Err(MathErrorView::UnsupportedOperation)),
        }
    }
}

impl Module {
    /// Declares a struct type with these properties, in this order.
    pub fn create_struct_type(&mut self, name: &str, properties: Vec<Property>)
        ensures
            final(self)@ == old(self)@.create_struct_type(
                name@,
                properties@.map_values(|p: Property| p@),
            ),
            final(self)@.terminals() == old(self)@.terminals(),
            old(self)@.wf() ==> final(self)@.wf(),
    {
        self.type_table.structs.push(StructType { name: String::from_str(name), properties });
        proof {
            assert(final(self)@.types =~= old(self)@.types.push(
                StructTypeView {
                    name: name@,
                    properties: properties@.map_values(|p: Property| p@),
                },
            ));
        }
    }

    /// Looks up the index of a struct type from its name.
    pub fn lookup_struct_type_index(&self, struct_type_name: &str) -> (result: usize)
        requires
            self@.find_struct(struct_type_name@) is Some,
        ensures
            self@.find_struct(struct_type_name@) == Some(result as int),
    {
        self.type_table.index_of(struct_type_name).unwrap()
    }

    /// Whether a struct of that type can be allocated.
    pub fn check_struct_malloc(&self, struct_type_name: &str) -> (result: bool)
        ensures
            result == self@.can_allocate(struct_type_name@),
    {
        let index = match self.type_table.index_of(struct_type_name) {
            Some(index) => index,
            None => { return false; },
        };
        let function = match self.function_table.index_of(&FunctionKey::new("malloc")) {
            Some(function) => function,
            None => { return false; },
        };
        let mut args = Vec::new();
        args.push(Value { type_enum: Type::Integer(0, 32), value: ValueRef::StructSize { index } });
        proof {
            assert(args@ =~= seq![ModuleView::struct_size(index as int)]);
        }
        self.check_call(function, &args).is_ok()
    }

    /// Allocates a struct.
    pub fn add_struct_malloc(&mut self, block: Block, struct_type_name: &str) -> (result: Value)
        requires
            old(self)@.has_block(block),
            old(self)@.can_allocate(struct_type_name@),
        ensures
            (final(self)@, result) == old(self)@.add_struct_malloc(block, struct_type_name@),
            final(self)@.terminals() == old(self)@.terminals(),
            old(self)@.wf() ==> final(self)@.wf(),
    {
        let index = self.type_table.index_of(struct_type_name).unwrap();
        let mut args = Vec::new();
        args.push(Value { type_enum: Type::Integer(0, 32), value: ValueRef::StructSize { index } });
        proof {
            assert(args@ =~= seq![ModuleView::struct_size(index as int)]);
        }
        let function = self.function_table.index_of(&FunctionKey::new("malloc")).unwrap();
        let address = self.emit_call(block, function, &args);
        Value { type_enum: Type::Struct(1, index), value: address.value }
    }

    pub fn add_store_to_obj(&mut self, block: Block, obj: Value, property: &str, property_value: Value) -> (result:
        Result<Value, MathError>)
        requires
            old(self)@.has_block(block),
        ensures
            (final(self)@, outcome(result)) == old(self)@.add_store_to_obj(
                block,
                obj,
                property@,
                property_value,
            ),
            final(self)@.terminals() == old(self)@.terminals(),
            old(self)@.wf() ==> final(self)@.wf(),
    {
        let index = match obj.type_enum {
            Type::Struct(_, index) => index,
            _ => { return Err(MathError::UnsupportedOperation); },
        };
        if index >= self.type_table.structs.len() {
            return Err(MathError::UnsupportedOperation);
        }
        let at = match self.type_table.structs[index].property_index(property) {
            Some(at) => at,
            None => { return Err(MathError::UndefinedVariable(String::from_str(property))); },
        };
        let property_type = self.type_table.structs[index].properties[at].type_enum;
        let location = self.emit(
            block,
            Instruction::unary(Opcode::FieldAddress(index, at), property_type, obj.value),
        );
        let stored = self.emit(
            block,
            Instruction::binary(Opcode::Store, Type::Void, property_value.value, location),
        );
        Ok(Value { type_enum: property_type, value: stored })
    }
}

} // verus!
