//! Arithmetic, comparison and bitwise instructions, with the promotion and
//! conversion of their operands.

use vstd::prelude::*;

use crate::block::{Block, CompareOperation, Instruction, InstructionView, Opcode, Value, ValueRef};
use crate::module::{Global, GlobalView, Module, ModuleView};
use crate::parser::{decimal_text, format_integer};
use crate::types::{outcome, MathError, MathErrorView, Type};

verus! {

/// The three operations that exist for integers and for floats alike.
#[derive(Clone, Copy, Debug, PartialEq, Eq, Structural)]
pub enum Arithmetic {
    Addition,
    Subtraction,
    Multiplication,
}

impl Arithmetic {
    pub open spec fn opcode(self, float: bool) -> Opcode {
        match self {
            Arithmetic::Addition => if float {
                Opcode::FloatAdd
            } else {
                Opcode::Add
            },
            Arithmetic::Subtraction => if float {
                Opcode::FloatSubtract
            } else {
                Opcode::Subtract
            },
            Arithmetic::Multiplication => if float {
                Opcode::FloatMultiply
            } else {
                Opcode::Multiply
            },
        }
    }

    pub fn get_opcode(self, float: bool) -> (result: Opcode)
        ensures
            result == self.opcode(float),
    {
        match self {
            Arithmetic::Addition => if float {
                Opcode::FloatAdd
            } else {
                Opcode::Add
            },
            Arithmetic::Subtraction => if float {
                Opcode::FloatSubtract
            } else {
                Opcode::Subtract
            },
            Arithmetic::Multiplication => if float {
                Opcode::FloatMultiply
            } else {
                Opcode::Multiply
            },
        }
    }
}

/// The three bitwise operations on two operands.
#[derive(Clone, Copy, Debug, PartialEq, Eq, Structural)]
pub enum Bitwise {
    And,
    Or,
    Xor,
}

impl Bitwise {
    pub open spec fn opcode(self) -> Opcode {
        match self {
            Bitwise::And => Opcode::And,
            Bitwise::Or => Opcode::Or,
            Bitwise::Xor => Opcode::Xor,
        }
    }

    pub fn get_opcode(self) -> (result: Opcode)
        ensures
            result == self.opcode(),
    {
        match self {
            Bitwise::And => Opcode::And,
            Bitwise::Or => Opcode::Or,
            Bitwise::Xor => Opcode::Xor,
        }
    }
}

/// The text of the float zero that negation and logical not compare with.
pub open spec fn zero_literal() -> Seq<char> {
    "0.0"@
}

/// The integer immediate `number`, 64 bits wide.
pub open spec fn immediate_integer(number: u64) -> Value {
    Value { type_enum: Type::Integer(0, 64), value: ValueRef::Integer { bits: 64, number } }
}

impl ModuleView {
    /// Reading through an address: where the value's type `loads`, a load is
    /// appended to `block` and its result stands for the value.
    pub open spec fn resolve_value(self, block: Block, value: Value) -> (ModuleView, Value) {
        if value.type_enum.loads() {
            (
                self.emit(
                    block,
                    InstructionView::unary(
                        Opcode::Load,
                        value.type_enum.resolved(),
                        value.value,
                    ),
                ),
                Value { type_enum: value.type_enum.resolved(), value: self.next_value(block) },
            )
        } else {
            (self, value)
        }
    }

    /// The instruction that converts a value of type `from` to `to`.
    pub open spec fn conversion(from: Type, to: Type, value: ValueRef) -> InstructionView {
        if from is Float {
            InstructionView::unary(Opcode::FloatToInteger, to.pointee(), value)
        } else if to is Float {
            InstructionView::unary(Opcode::IntegerToFloat, Type::Float(0), value)
        } else {
            InstructionView::unary(Opcode::IntegerCast, from.converted(to), value)
        }
    }

    /// Conversion of a value to `result_type`: nothing where it stands for
    /// a value of that type already, else one conversion instruction
    /// appended to `block`.
    pub open spec fn convert_to_type(self, block: Block, value: Value, result_type: Type) -> (
        ModuleView,
        Value,
    ) {
        if value.type_enum.stands_for(result_type) {
            (self, value)
        } else {
            (
                self.emit(block, Self::conversion(value.type_enum, result_type, value.value)),
                Value {
                    type_enum: value.type_enum.converted(result_type),
                    value: self.next_value(block),
                },
            )
        }
    }

    /// Resolution, then conversion.
    pub open spec fn math_resolve_value(self, block: Block, value: Value, result_type: Type) -> (
        ModuleView,
        Value,
    ) {
        let (resolved, value) = self.resolve_value(block, value);
        resolved.convert_to_type(block, value, result_type)
    }

    /// Both operands brought to `result_type`, then one instruction on them.
    pub open spec fn binary_operation(
        self,
        block: Block,
        opcode: Opcode,
        operand_type: Type,
        result_type: Type,
        lhs: Value,
        rhs: Value,
    ) -> (ModuleView, Value) {
        let (first, lhs) = self.math_resolve_value(block, lhs, operand_type);
        let (second, rhs) = first.math_resolve_value(block, rhs, operand_type);
        (
            second.emit(block, InstructionView::binary(opcode, result_type, lhs.value, rhs.value)),
            Value { type_enum: result_type, value: second.next_value(block) },
        )
    }

    /// Whether both operand types, once resolved, convert to `to`.
    pub open spec fn operands_convert(lhs: Type, rhs: Type, to: Type) -> bool {
        lhs.resolved().convertible(to) && rhs.resolved().convertible(to)
    }

    /// The type in which an addition, subtraction or multiplication of these
    /// operand types is carried out, or why there is none.
    pub open spec fn arithmetic_type(lhs: Type, rhs: Type) -> Result<Type, MathErrorView> {
        match lhs.aliased(rhs) {
            Err(error) => Err(error),
            Ok(common) => if (common is Float || common is Integer) && Self::operands_convert(
                lhs,
                rhs,
                common,
            ) {
                Ok(common)
            } else {
                Err(MathErrorView::UnsupportedOperation)
            },
        }
    }

    pub open spec fn add_arithmetic(self, block: Block, operation: Arithmetic, lhs: Value, rhs: Value) -> (
        ModuleView,
        Result<Value, MathErrorView>,
    ) {
        match Self::arithmetic_type(lhs.type_enum, rhs.type_enum) {
            Err(error) => (self, Err(error)),
            Ok(common) => {
                let (after, value) = self.binary_operation(
                    block,
                    operation.opcode(common is Float),
                    common,
                    common,
                    lhs,
                    rhs,
                );
                (after, Ok(value))
            },
        }
    }

    /// Division is always carried out on floats.
    pub open spec fn add_division(self, block: Block, lhs: Value, rhs: Value) -> (
        ModuleView,
        Result<Value, MathErrorView>,
    ) {
        if Self::operands_convert(lhs.type_enum, rhs.type_enum, Type::Float(0)) {
            let (after, value) = self.binary_operation(
                block,
                Opcode::FloatDivide,
                Type::Float(0),
                Type::Float(0),
                lhs,
                rhs,
            );
            (after, Ok(value))
        } else {
            (self, Err(MathErrorView::UnsupportedOperation))
        }
    }

    /// The type in which these operand types are compared: float, or the
    /// integer of the wider width.
    pub open spec fn compare_type(lhs: Type, rhs: Type) -> Result<Type, MathErrorView> {
        match lhs.aliased(rhs) {
            Err(error) => Err(error),
            Ok(common) => if (common is Float || common is Integer) && Self::operands_convert(
                lhs,
                rhs,
                common,
            ) {
                Ok(common)
            } else {
                Err(MathErrorView::UnsupportedOperation)
            },
        }
    }

    /// A comparison yields a one-bit integer, by the ordered predicate for
    /// floats and the unsigned one for integers.
    pub open spec fn add_compare(self, block: Block, lhs: Value, rhs: Value, operation: CompareOperation) -> (
        ModuleView,
        Result<Value, MathErrorView>,
    ) {
        match Self::compare_type(lhs.type_enum, rhs.type_enum) {
            Err(error) => (self, Err(error)),
            Ok(common) => {
                let (after, value) = self.binary_operation(
                    block,
                    if common is Float {
                        Opcode::FloatCompare(operation)
                    } else {
                        Opcode::IntegerCompare(operation)
                    },
                    common,
                    Type::Integer(0, 1),
                    lhs,
                    rhs,
                );
                (after, Ok(value))
            },
        }
    }

    /// Bitwise operations exist for integers only.
    pub open spec fn bitwise_type(lhs: Type, rhs: Type) -> Result<Type, MathErrorView> {
        match lhs.aliased(rhs) {
            Err(error) => Err(error),
            Ok(common) => if common is Integer && Self::operands_convert(lhs, rhs, common) {
                Ok(common)
            } else {
                Err(MathErrorView::UnsupportedOperation)
            },
        }
    }

    pub open spec fn add_bitwise(self, block: Block, operation: Bitwise, lhs: Value, rhs: Value) -> (
        ModuleView,
        Result<Value, MathErrorView>,
    ) {
        match Self::bitwise_type(lhs.type_enum, rhs.type_enum) {
            Err(error) => (self, Err(error)),
            Ok(common) => {
                let (after, value) = self.binary_operation(
                    block,
                    operation.opcode(),
                    common,
                    common,
                    lhs,
                    rhs,
                );
                (after, Ok(value))
            },
        }
    }

    /// Bitwise not is an exclusive or with the integer of all ones.
    pub open spec fn add_bitwise_not(self, block: Block, value: Value) -> (
        ModuleView,
        Result<Value, MathErrorView>,
    ) {
        match value.type_enum.pointee() {
            Type::Integer(_, bits) => {
                let result_type = value.type_enum.pointee();
                let (after, value) = self.math_resolve_value(block, value, result_type);
                (
                    after.emit(
                        block,
                        InstructionView::binary(
                            Opcode::Xor,
                            result_type,
                            ValueRef::Integer { bits, number: u64::MAX },
                            value.value,
                        ),
                    ),
                    Ok(Value { type_enum: result_type, value: after.next_value(block) }),
                )
            },
            _ => (self, Err(MathErrorView::UnsupportedOperation)),
        }
    }

    /// The float immediate whose text is `literal`, which the string table
    /// keeps.
    pub open spec fn create_immediate_float(self, literal: Seq<char>) -> (ModuleView, Value) {
        (
            self.with_string(literal),
            Value {
                type_enum: Type::Float(0),
                value: ValueRef::Float { literal: self.strings.len() as usize },
            },
        )
    }

    /// The module after a variable of the module was declared that holds
    /// the integer `number`, and the variable's address. It is named by the
    /// number.
    pub open spec fn add_global_integer(self, number: u64) -> (ModuleView, Value) {
        (
            ModuleView {
                globals: self.globals.push(
                    GlobalView {
                        name: "c"@ + decimal_text(number as nat),
                        type_enum: Type::Integer(0, 64),
                        initializer: Some(ValueRef::Integer { bits: 64, number }),
                    },
                ),
                ..self
            },
            Value {
                type_enum: Type::Integer(1, 64),
                value: ValueRef::Global { index: self.globals.len() as usize },
            },
        )
    }

    /// The module after a variable of the module was declared that holds
    /// the float written as `literal`, and the variable's address. It is
    /// named by the literal.
    pub open spec fn add_global_float(self, literal: Seq<char>) -> (ModuleView, Value) {
        (
            ModuleView {
                globals: self.globals.push(
                    GlobalView {
                        name: "cf"@ + literal,
                        type_enum: Type::Float(0),
                        initializer: Some(ValueRef::Float { literal: self.strings.len() as usize }),
                    },
                ),
                strings: self.strings.push(literal),
                ..self
            },
            Value {
                type_enum: Type::Float(1),
                value: ValueRef::Global { index: self.globals.len() as usize },
            },
        )
    }

    /// Logical not compares with zero for equality.
    pub open spec fn add_logical_not(self, block: Block, value: Value) -> (
        ModuleView,
        Result<Value, MathErrorView>,
    ) {
        match value.type_enum {
            Type::Float(_) => {
                let (after, zero) = self.create_immediate_float(zero_literal());
                after.add_compare(block, value, zero, CompareOperation::Equals)
            },
            Type::Integer(_, _) => self.add_compare(
                block,
                value,
                immediate_integer(0),
                CompareOperation::Equals,
            ),
            _ => (self, Err(MathErrorView::UnsupportedOperation)),
        }
    }

    /// Negation subtracts the value from zero.
    pub open spec fn add_negate(self, block: Block, value: Value) -> (
        ModuleView,
        Result<Value, MathErrorView>,
    ) {
        let result_type = value.type_enum.pointee();
        if !value.type_enum.resolved().convertible(result_type) {
            (self, Err(MathErrorView::UnsupportedOperation))
        } else {
            match result_type {
                Type::Float(_) => {
                    let (with_zero, zero) = self.create_immediate_float(zero_literal());
                    let (after, value) = with_zero.math_resolve_value(block, value, result_type);
                    (
                        after.emit(
                            block,
                            InstructionView::binary(
                                Opcode::FloatSubtract,
                                result_type,
                                zero.value,
                                value.value,
                            ),
                        ),
                        Ok(Value { type_enum: result_type, value: after.next_value(block) }),
                    )
                },
                Type::Integer(_, bits) => {
                    let (after, value) = self.math_resolve_value(block, value, result_type);
                    (
                        after.emit(
                            block,
                            InstructionView::binary(
                                Opcode::Subtract,
                                result_type,
                                ValueRef::Integer { bits, number: 0 },
                                value.value,
                            ),
                        ),
                        Ok(Value { type_enum: result_type, value: after.next_value(block) }),
                    )
                },
                _ => (self, Err(MathErrorView::UnsupportedOperation)),
            }
        }
    }
}

} // verus!

verus! {

impl Module {
    /// The common type of two operand types.
    pub fn math_type_aliasing(&self, type1: Type, type2: Type) -> (result: Result<Type, MathError>)
        ensures
            outcome(result) == type1.aliased(type2),
    {
        if let Type::Integer(_, bits1) = type1 {
            if let Type::Integer(_, bits2) = type2 {
                return Ok(Type::Integer(0, if bits1 >= bits2 { bits1 } else { bits2 }));
            }
        }
        if type1.zero_pointer_number() == type2.zero_pointer_number() {
            Ok(type1.zero_pointer_number())
        } else if type1.zero_pointer_number() == Type::Float(0) || type2.zero_pointer_number()
            == Type::Float(0) {
            Ok(Type::Float(0))
        } else {
            Err(MathError::IncompatibleTypes(type1, type2))
        }
    }

    pub fn create_immediate_integer(&self, number: u64) -> (result: Value)
        ensures
            result == immediate_integer(number),
    {
        Value { type_enum: Type::Integer(0, 64), value: ValueRef::Integer { bits: 64, number } }
    }

    /// Declares a variable of the module that holds an integer constant.
    pub fn add_global_integer(&mut self, block: Block, number: u64) -> (result: Value)
        ensures
            (final(self)@, result) == old(self)@.add_global_integer(number),
            final(self)@.terminals() == old(self)@.terminals(),
            old(self)@.wf() ==> final(self)@.wf(),
    {
        let index = self.globals.len();
        let name = String::from_str("c").concat(format_integer(number).as_str());
        self.globals.push(
            Global {
                name,
                type_enum: Type::Integer(0, 64),
                initializer: Some(ValueRef::Integer { bits: 64, number }),
            },
        );
        proof {
            assert(final(self)@.globals =~= old(self)@.add_global_integer(number).0.globals);
        }
        Value { type_enum: Type::Integer(1, 64), value: ValueRef::Global { index } }
    }

    /// Declares a variable of the module that holds a float constant.
    pub fn add_global_float(&mut self, block: Block, literal: &str) -> (result: Value)
        ensures
            (final(self)@, result) == old(self)@.add_global_float(literal@),
            final(self)@.terminals() == old(self)@.terminals(),
            old(self)@.wf() ==> final(self)@.wf(),
    {
        let index = self.globals.len();
        let name = String::from_str("cf").concat(literal);
        let position = self.string_table.to_llvm_string(literal);
        self.globals.push(
            Global {
                name,
                type_enum: Type::Float(0),
                initializer: Some(ValueRef::Float { literal: position }),
            },
        );
        proof {
            assert(final(self)@.globals =~= old(self)@.add_global_float(literal@).0.globals);
        }
        Value { type_enum: Type::Float(1), value: ValueRef::Global { index } }
    }

    /// A float immediate. The literal's text is kept as it is written; the
    /// backend reads the number from it.
    pub fn create_immediate_float(&mut self, literal: &str) -> (result: Value)
        ensures
            (final(self)@, result) == old(self)@.create_immediate_float(literal@),
            final(self)@.terminals() == old(self)@.terminals(),
            old(self)@.wf() ==> final(self)@.wf(),
    {
        let position = self.string_table.to_llvm_string(literal);
        Value { type_enum: Type::Float(0), value: ValueRef::Float { literal: position } }
    }

    /// The type of the address of a value of type `type_enum`.
    pub fn upgrade_type(&mut self, type_enum: Type) -> (result: Type)
        requires
            type_enum is Float || type_enum is Integer,
            type_enum.pointer_number() < u8::MAX,
        ensures
            *final(self) == *old(self),
            result == type_enum.with_pointer_number((type_enum.pointer_number() + 1) as u8),
    {
        type_enum.increment_pointer_number()
    }

    /// The type of what an address of type `type_enum` points to.
    pub fn downgrade_type(&mut self, type_enum: Type) -> (result: Type)
        requires
            type_enum is Float || type_enum is Integer,
            type_enum.pointer_number() > 0,
        ensures
            *final(self) == *old(self),
            result == type_enum.with_pointer_number((type_enum.pointer_number() - 1) as u8),
    {
        match type_enum {
            Type::Float(pointer_number) => Type::Float(pointer_number - 1),
            Type::Integer(pointer_number, bits) => Type::Integer(pointer_number - 1, bits),
            _ => type_enum,
        }
    }

    /// Resolves an address into the value behind it.
    pub fn resolve_value(&mut self, block: Block, value: Value) -> (result: Value)
        requires
            old(self)@.has_block(block),
        ensures
            (final(self)@, result) == old(self)@.resolve_value(block, value),
            final(self)@.terminals() == old(self)@.terminals(),
            old(self)@.wf() ==> final(self)@.wf(),
    {
        if value.type_enum.is_loaded() {
            let type_enum = value.type_enum.to_resolved();
            let loaded = self.emit(block, Instruction::unary(Opcode::Load, type_enum, value.value));
            Value { type_enum, value: loaded }
        } else {
            value
        }
    }

    pub fn math_resolve_value(&mut self, block: Block, value: Value, result_type: Type) -> (result:
        Value)
        requires
            old(self)@.has_block(block),
            value.type_enum.resolved().convertible(result_type),
        ensures
            (final(self)@, result) == old(self)@.math_resolve_value(block, value, result_type),
            final(self)@.terminals() == old(self)@.terminals(),
            old(self)@.wf() ==> final(self)@.wf(),
    {
        let resolved = self.resolve_value(block, value);
        self.convert_to_type(block, resolved, result_type)
    }

    /// Converts a value to `result_type`. There is no conversion that
    /// narrows an integer, and none from or to a type that is not a number.
    pub fn convert_to_type(&mut self, block: Block, value: Value, result_type: Type) -> (result:
        Value)
        requires
            old(self)@.has_block(block),
            value.type_enum.convertible(result_type),
        ensures
            (final(self)@, result) == old(self)@.convert_to_type(block, value, result_type),
            final(self)@.terminals() == old(self)@.terminals(),
            old(self)@.wf() ==> final(self)@.wf(),
    {
        if value.type_enum.can_stand_for(result_type) {
            return value;
        }
        match value.type_enum {
            Type::Float(pointer_number) => match result_type {
                Type::Integer(_, bits) => {
                    let converted = self.emit(
                        block,
                        Instruction::unary(
                            Opcode::FloatToInteger,
                            Type::Integer(0, bits),
                            value.value,
                        ),
                    );
                    Value { type_enum: Type::Integer(pointer_number, bits), value: converted }
                },
                _ => value,
            },
            Type::Integer(pointer_number, _) => match result_type {
                Type::Integer(_, bits2) => {
                    let converted = self.emit(
                        block,
                        Instruction::unary(
                            Opcode::IntegerCast,
                            Type::Integer(pointer_number, bits2),
                            value.value,
                        ),
                    );
                    Value { type_enum: Type::Integer(pointer_number, bits2), value: converted }
                },
                Type::Float(_) => {
                    let converted = self.emit(
                        block,
                        Instruction::unary(Opcode::IntegerToFloat, Type::Float(0), value.value),
                    );
                    Value { type_enum: Type::Float(pointer_number), value: converted }
                },
                _ => value,
            },
            _ => value,
        }
    }

    fn binary_operation(
        &mut self,
        block: Block,
        opcode: Opcode,
        operand_type: Type,
        result_type: Type,
        lhs: Value,
        rhs: Value,
    ) -> (result: Value)
        requires
            old(self)@.has_block(block),
            ModuleView::operands_convert(lhs.type_enum, rhs.type_enum, operand_type),
        ensures
            (final(self)@, result) == old(self)@.binary_operation(
                block,
                opcode,
                operand_type,
                result_type,
                lhs,
                rhs,
            ),
            final(self)@.terminals() == old(self)@.terminals(),
            old(self)@.wf() ==> final(self)@.wf(),
    {
        let lhs = self.math_resolve_value(block, lhs, operand_type);
        let rhs = self.math_resolve_value(block, rhs, operand_type);
        let value = self.emit(
            block,
            Instruction::binary(opcode, result_type, lhs.value, rhs.value),
        );
        Value { type_enum: result_type, value }
    }

    fn both_convert(lhs: Type, rhs: Type, to: Type) -> (result: bool)
        ensures
            result == ModuleView::operands_convert(lhs, rhs, to),
    {
        lhs.to_resolved().can_convert_to(to) && rhs.to_resolved().can_convert_to(to)
    }

    fn add_arithmetic(&mut self, block: Block, operation: Arithmetic, lhs: Value, rhs: Value) -> (result:
        Result<Value, MathError>)
        requires
            old(self)@.has_block(block),
        ensures
            (final(self)@, outcome(result)) == old(self)@.add_arithmetic(
                block,
                operation,
                lhs,
                rhs,
            ),
            final(self)@.terminals() == old(self)@.terminals(),
            old(self)@.wf() ==> final(self)@.wf(),
    {
        let common = match self.math_type_aliasing(lhs.type_enum, rhs.type_enum) {
            Ok(common) => common,
            Err(error) => { return Err(error); },
        };
        let float = match common {
            Type::Float(_) => true,
            Type::Integer(_, _) => false,
            _ => { return Err(MathError::UnsupportedOperation); },
        };
        if !Self::both_convert(lhs.type_enum, rhs.type_enum, common) {
            return Err(MathError::UnsupportedOperation);
        }
        Ok(self.binary_operation(block, operation.get_opcode(float), common, common, lhs, rhs))
    }

    pub fn add_addition(&mut self, block: Block, lhs: Value, rhs: Value) -> (result: Result<
        Value,
        MathError,
    >)
        requires
            old(self)@.has_block(block),
        ensures
            (final(self)@, outcome(result)) == old(self)@.add_arithmetic(
                block,
                Arithmetic::Addition,
                lhs,
                rhs,
            ),
            final(self)@.terminals() == old(self)@.terminals(),
            old(self)@.wf() ==> final(self)@.wf(),
    {
        self.add_arithmetic(block, Arithmetic::Addition, lhs, rhs)
    }

    pub fn add_subtraction(&mut self, block: Block, lhs: Value, rhs: Value) -> (result: Result<
        Value,
        MathError,
    >)
        requires
            old(self)@.has_block(block),
        ensures
            (final(self)@, outcome(result)) == old(self)@.add_arithmetic(
                block,
                Arithmetic::Subtraction,
                lhs,
                rhs,
            ),
            final(self)@.terminals() == old(self)@.terminals(),
            old(self)@.wf() ==> final(self)@.wf(),
    {
        self.add_arithmetic(block, Arithmetic::Subtraction, lhs, rhs)
    }

    pub fn add_multiplication(&mut self, block: Block, lhs: Value, rhs: Value) -> (result: Result<
        Value,
        MathError,
    >)
        requires
            old(self)@.has_block(block),
        ensures
            (final(self)@, outcome(result)) == old(self)@.add_arithmetic(
                block,
                Arithmetic::Multiplication,
                lhs,
                rhs,
            ),
            final(self)@.terminals() == old(self)@.terminals(),
            old(self)@.wf() ==> final(self)@.wf(),
    {
        self.add_arithmetic(block, Arithmetic::Multiplication, lhs, rhs)
    }

    pub fn add_division(&mut self, block: Block, lhs: Value, rhs: Value) -> (result: Result<
        Value,
        MathError,
    >)
        requires
            old(self)@.has_block(block),
        ensures
            (final(self)@, outcome(result)) == old(self)@.add_division(block, lhs, rhs),
            final(self)@.terminals() == old(self)@.terminals(),
            old(self)@.wf() ==> final(self)@.wf(),
    {
        if !Self::both_convert(lhs.type_enum, rhs.type_enum, Type::Float(0)) {
            return Err(MathError::UnsupportedOperation);
        }
        Ok(
            self.binary_operation(
                block,
                Opcode::FloatDivide,
                Type::Float(0),
                Type::Float(0),
                lhs,
                rhs,
            ),
        )
    }

    pub fn add_compare(&mut self, block: Block, lhs: Value, rhs: Value, operation: CompareOperation) -> (result:
        Result<Value, MathError>)
        requires
            old(self)@.has_block(block),
        ensures
            (final(self)@, outcome(result)) == old(self)@.add_compare(block, lhs, rhs, operation),
            final(self)@.terminals() == old(self)@.terminals(),
            old(self)@.wf() ==> final(self)@.wf(),
    {
        let common = match self.math_type_aliasing(lhs.type_enum, rhs.type_enum) {
            Ok(common) => common,
            Err(error) => { return Err(error); },
        };
        let opcode = match common {
            Type::Float(_) => Opcode::FloatCompare(operation),
            Type::Integer(_, _) => Opcode::IntegerCompare(operation),
            _ => { return Err(MathError::UnsupportedOperation); },
        };
        if !Self::both_convert(lhs.type_enum, rhs.type_enum, common) {
            return Err(MathError::UnsupportedOperation);
        }
        Ok(self.binary_operation(block, opcode, common, Type::Integer(0, 1), lhs, rhs))
    }

    pub fn add_less_than(&mut self, block: Block, lhs: Value, rhs: Value) -> (result: Result<
        Value,
        MathError,
    >)
        requires
            old(self)@.has_block(block),
        ensures
            (final(self)@, outcome(result)) == old(self)@.add_compare(
                block,
                lhs,
                rhs,
                CompareOperation::LessThan,
            ),
            final(self)@.terminals() == old(self)@.terminals(),
            old(self)@.wf() ==> final(self)@.wf(),
    {
        self.add_compare(block, lhs, rhs, CompareOperation::LessThan)
    }

    pub fn add_greater_than(&mut self, block: Block, lhs: Value, rhs: Value) -> (result: Result<
        Value,
        MathError,
    >)
        requires
            old(self)@.has_block(block),
        ensures
            (final(self)@, outcome(result)) == old(self)@.add_compare(
                block,
                lhs,
                rhs,
                CompareOperation::GreaterThan,
            ),
            final(self)@.terminals() == old(self)@.terminals(),
            old(self)@.wf() ==> final(self)@.wf(),
    {
        self.add_compare(block, lhs, rhs, CompareOperation::GreaterThan)
    }

    pub fn add_less_than_equal_to(&mut self, block: Block, lhs: Value, rhs: Value) -> (result:
        Result<Value, MathError>)
        requires
            old(self)@.has_block(block),
        ensures
            (final(self)@, outcome(result)) == old(self)@.add_compare(
                block,
                lhs,
                rhs,
                CompareOperation::LessThanEqualTo,
            ),
            final(self)@.terminals() == old(self)@.terminals(),
            old(self)@.wf() ==> final(self)@.wf(),
    {
        self.add_compare(block, lhs, rhs, CompareOperation::LessThanEqualTo)
    }

    pub fn add_greater_than_equal_to(&mut self, block: Block, lhs: Value, rhs: Value) -> (result:
        Result<Value, MathError>)
        requires
            old(self)@.has_block(block),
        ensures
            (final(self)@, outcome(result)) == old(self)@.add_compare(
                block,
                lhs,
                rhs,
                CompareOperation::GreaterThanEqualTo,
            ),
            final(self)@.terminals() == old(self)@.terminals(),
            old(self)@.wf() ==> final(self)@.wf(),
    {
        self.add_compare(block, lhs, rhs, CompareOperation::GreaterThanEqualTo)
    }

    pub fn add_equals(&mut self, block: Block, lhs: Value, rhs: Value) -> (result: Result<
        Value,
        MathError,
    >)
        requires
            old(self)@.has_block(block),
        ensures
            (final(self)@, outcome(result)) == old(self)@.add_compare(
                block,
                lhs,
                rhs,
                CompareOperation::Equals,
            ),
            final(self)@.terminals() == old(self)@.terminals(),
            old(self)@.wf() ==> final(self)@.wf(),
    {
        self.add_compare(block, lhs, rhs, CompareOperation::Equals)
    }

    pub fn add_not_equals(&mut self, block: Block, lhs: Value, rhs: Value) -> (result: Result<
        Value,
        MathError,
    >)
        requires
            old(self)@.has_block(block),
        ensures
            (final(self)@, outcome(result)) == old(self)@.add_compare(
                block,
                lhs,
                rhs,
                CompareOperation::NotEquals,
            ),
            final(self)@.terminals() == old(self)@.terminals(),
            old(self)@.wf() ==> final(self)@.wf(),
    {
        self.add_compare(block, lhs, rhs, CompareOperation::NotEquals)
    }

    fn add_bitwise(&mut self, block: Block, operation: Bitwise, lhs: Value, rhs: Value) -> (result:
        Result<Value, MathError>)
        requires
            old(self)@.has_block(block),
        ensures
            (final(self)@, outcome(result)) == old(self)@.add_bitwise(block, operation, lhs, rhs),
            final(self)@.terminals() == old(self)@.terminals(),
            old(self)@.wf() ==> final(self)@.wf(),
    {
        let common = match self.math_type_aliasing(lhs.type_enum, rhs.type_enum) {
            Ok(common) => common,
            Err(error) => { return Err(error); },
        };
        if common.zero_pointer_number().zero_bits() != Type::Integer(0, 0) {
            return Err(MathError::UnsupportedOperation);
        }
        if !Self::both_convert(lhs.type_enum, rhs.type_enum, common) {
            return Err(MathError::UnsupportedOperation);
        }
        Ok(self.binary_operation(block, operation.get_opcode(), common, common, lhs, rhs))
    }

    pub fn add_bitwise_and(&mut self, block: Block, lhs: Value, rhs: Value) -> (result: Result<
        Value,
        MathError,
    >)
        requires
            old(self)@.has_block(block),
        ensures
            (final(self)@, outcome(result)) == old(self)@.add_bitwise(
                block,
                Bitwise::And,
                lhs,
                rhs,
            ),
            final(self)@.terminals() == old(self)@.terminals(),
            old(self)@.wf() ==> final(self)@.wf(),
    {
        self.add_bitwise(block, Bitwise::And, lhs, rhs)
    }

    pub fn add_bitwise_or(&mut self, block: Block, lhs: Value, rhs: Value) -> (result: Result<
        Value,
        MathError,
    >)
        requires
            old(self)@.has_block(block),
        ensures
            (final(self)@, outcome(result)) == old(self)@.add_bitwise(
                block,
                Bitwise::Or,
                lhs,
                rhs,
            ),
            final(self)@.terminals() == old(self)@.terminals(),
            old(self)@.wf() ==> final(self)@.wf(),
    {
        self.add_bitwise(block, Bitwise::Or, lhs, rhs)
    }

    pub fn add_bitwise_xor(&mut self, block: Block, lhs: Value, rhs: Value) -> (result: Result<
        Value,
        MathError,
    >)
        requires
            old(self)@.has_block(block),
        ensures
            (final(self)@, outcome(result)) == old(self)@.add_bitwise(
                block,
                Bitwise::Xor,
                lhs,
                rhs,
            ),
            final(self)@.terminals() == old(self)@.terminals(),
            old(self)@.wf() ==> final(self)@.wf(),
    {
        self.add_bitwise(block, Bitwise::Xor, lhs, rhs)
    }

    pub fn add_bitwise_not(&mut self, block: Block, value: Value) -> (result: Result<
        Value,
        MathError,
    >)
        requires
            old(self)@.has_block(block),
        ensures
            (final(self)@, outcome(result)) == old(self)@.add_bitwise_not(block, value),
            final(self)@.terminals() == old(self)@.terminals(),
            old(self)@.wf() ==> final(self)@.wf(),
    {
        let result_type = value.type_enum.zero_pointer_number();
        match result_type {
            Type::Integer(_, bits) => {
                let value = self.math_resolve_value(block, value, result_type);
                let result = self.emit(
                    block,
                    Instruction::binary(
                        Opcode::Xor,
                        result_type,
                        ValueRef::Integer { bits, number: u64::MAX },
                        value.value,
                    ),
                );
                Ok(Value { type_enum: result_type, value: result })
            },
            _ => Err(MathError::UnsupportedOperation),
        }
    }

    pub fn add_logical_not(&mut self, block: Block, value: Value) -> (result: Result<
        Value,
        MathError,
    >)
        requires
            old(self)@.has_block(block),
        ensures
            (final(self)@, outcome(result)) == old(self)@.add_logical_not(block, value),
            final(self)@.terminals() == old(self)@.terminals(),
            old(self)@.wf() ==> final(self)@.wf(),
    {
        match value.type_enum {
            Type::Float(_) => {
                let zero = self.create_immediate_float("0.0");
                self.add_compare(block, value, zero, CompareOperation::Equals)
            },
            Type::Integer(_, _) => {
                let zero = self.create_immediate_integer(0);
                self.add_compare(block, value, zero, CompareOperation::Equals)
            },
            _ => Err(MathError::UnsupportedOperation),
        }
    }

    pub fn add_negate(&mut self, block: Block, value: Value) -> (result: Result<Value, MathError>)
        requires
            old(self)@.has_block(block),
        ensures
            (final(self)@, outcome(result)) == old(self)@.add_negate(block, value),
            final(self)@.terminals() == old(self)@.terminals(),
            old(self)@.wf() ==> final(self)@.wf(),
    {
        let result_type = value.type_enum.zero_pointer_number();
        if !value.type_enum.to_resolved().can_convert_to(result_type) {
            return Err(MathError::UnsupportedOperation);
        }
        match result_type {
            Type::Float(_) => {
                let zero = self.create_immediate_float("0.0");
                let value = self.math_resolve_value(block, value, result_type);
                let result = self.emit(
                    block,
                    Instruction::binary(
                        Opcode::FloatSubtract,
                        result_type,
                        zero.value,
                        value.value,
                    ),
                );
                Ok(Value { type_enum: result_type, value: result })
            },
            Type::Integer(_, bits) => {
                let value = self.math_resolve_value(block, value, result_type);
                let result = self.emit(
                    block,
                    Instruction::binary(
                        Opcode::Subtract,
                        result_type,
                        ValueRef::Integer { bits, number: 0 },
                        value.value,
                    ),
                );
                Ok(Value { type_enum: result_type, value: result })
            },
            _ => Err(MathError::UnsupportedOperation),
        }
    }
}

/// Bringing a value to the bit that decides a branch changes no terminal.
pub proof fn lemma_decide_keeps_terminals(module: ModuleView, block: Block, value: Value)
    requires
        module.has_block(block),
    ensures
        module.decide(block, value).0.terminals() == module.terminals(),
{
    let resolved = module.resolve_value(block, value);
    lemma_resolve_keeps_terminals(module, block, value, Type::Integer(0, 1));
    match resolved.1.type_enum {
        Type::Integer(_, bits) => {
            crate::module::lemma_emit_keeps_terminals(
                resolved.0,
                block,
                InstructionView::binary(
                    Opcode::IntegerCompare(CompareOperation::NotEquals),
                    Type::Integer(0, 1),
                    resolved.1.value,
                    ValueRef::Integer { bits, number: 0 },
                ),
            );
        },
        _ => {},
    }
    crate::module::lemma_emit_keeps_terminals(
        resolved.0,
        block,
        ModuleView::conversion(resolved.1.type_enum, Type::Integer(0, 1), resolved.1.value),
    );
}

/// Resolving and converting a value changes no terminal.
pub proof fn lemma_resolve_keeps_terminals(module: ModuleView, block: Block, value: Value, to: Type)
    requires
        module.has_block(block),
    ensures
        module.resolve_value(block, value).0.terminals() == module.terminals(),
        module.math_resolve_value(block, value, to).0.terminals() == module.terminals(),
{
    let resolved = module.resolve_value(block, value);
    crate::module::lemma_emit_keeps_terminals(
        module,
        block,
        InstructionView::unary(Opcode::Load, value.type_enum.resolved(), value.value),
    );
    crate::module::lemma_emit_keeps_terminals(
        resolved.0,
        block,
        ModuleView::conversion(resolved.1.type_enum, to, resolved.1.value),
    );
}

} // verus!
