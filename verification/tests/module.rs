use ai_dsl2_compiler::block::{
    Block, CompareOperation, Instruction, Opcode, TerminalInstruction, Value, ValueRef,
};
use ai_dsl2_compiler::function_table::{Function, FunctionKey, FunctionTable};
use ai_dsl2_compiler::logic::LogicOperation;
use ai_dsl2_compiler::module::Module;
use ai_dsl2_compiler::object::Property;
use ai_dsl2_compiler::types::{MathError, Type};
use ai_dsl2_compiler::utility::strings::StringTable;
use ai_dsl2_compiler::variables::{Variable, VariableTable};

const INT: Type = Type::Integer(0, 64);

/// A module with one function `f` that has one block.
fn module_with_block() -> (Module, FunctionKey, Block) {
    let mut module = Module::new("main");
    let key = module.create_function("f", &vec![INT, Type::Float(0)], INT);
    let block = module.new_block("f", &key);
    (module, key, block)
}

fn function<'a>(module: &'a Module, key: &FunctionKey) -> &'a Function {
    module.function_table.get_function(key).unwrap()
}

fn opcodes(module: &Module, block: Block) -> Vec<Opcode> {
    module.function_table.functions[block.parent].blocks[block.index]
        .instructions
        .iter()
        .map(|instruction| instruction.opcode)
        .collect()
}

fn instruction(module: &Module, block: Block, index: usize) -> &Instruction {
    &module.function_table.functions[block.parent].blocks[block.index].instructions[index]
}

fn result_of(block: Block, index: usize) -> ValueRef {
    ValueRef::Instruction { block, index }
}

fn argument(index: usize, type_enum: Type) -> Value {
    Value { type_enum, value: ValueRef::Argument { function: 0, index } }
}

#[test]
fn new_module_is_empty() {
    let module = Module::new("main");
    assert_eq!(module.name, "main");
    assert!(module.function_table.functions.is_empty());
    assert!(module.globals.is_empty());
    assert!(module.string_table.strings.is_empty());
}

#[test]
fn function_names_are_transformed() {
    let mut module = Module::new("main");
    assert_eq!(module.transform_function_name("main"), "_main");
    let key = module.create_function("main", &vec![], Type::Void);
    assert_eq!(key.name, "_main");
    let external = module.create_extern_function("main", &vec![], INT);
    assert_eq!(external.name, "main");
    assert_eq!(module.function_table.index_of(&key), Some(0));
    assert_eq!(module.function_table.index_of(&external), Some(1));
    assert_eq!(key, FunctionKey::new("_main"));
    assert_ne!(key, external);
    assert_eq!(module.function_table.get_function_by_ref_mut(1), Some(external.clone()));
    module.function_table.get_function_mut(&key).unwrap().check_arguments = false;
    assert!(!module.function_table.functions[0].check_arguments);
    assert!(module.function_table.get_function_mut(&FunctionKey::new("g")).is_none());
    assert!(!function(&module, &key).check_arguments);
    assert_eq!(function(&module, &external).return_type, INT);
}

#[test]
fn declared_function_has_its_arguments_bound() {
    let (module, key, _) = module_with_block();
    let f = function(&module, &key);
    assert_eq!(f.get_function(), 0);
    assert_eq!(f.get_argument(0), argument(0, INT));
    assert_eq!(f.get_argument(1), argument(1, Type::Float(0)));
    assert_eq!(f.argument_values.len(), 2);
}

#[test]
fn later_function_hides_an_earlier_one_of_the_same_name() {
    let mut module = Module::new("main");
    module.create_extern_function("f", &vec![], Type::Void);
    let key = module.create_extern_function("f", &vec![INT], INT);
    assert_eq!(module.function_table.index_of(&key), Some(1));
    assert_eq!(function(&module, &key).argument_types, vec![INT]);
    assert!(module.function_table.get_function(&FunctionKey::new("g")).is_none());
    assert_eq!(module.function_table.get_function_by_ref(0).unwrap().name, "f");
    assert!(module.function_table.get_function_by_ref(2).is_none());
}

#[test]
fn function_table_starts_empty() {
    let mut table = FunctionTable::default();
    assert!(table.functions.is_empty());
    assert_eq!(table.index_of(&FunctionKey::new("f")), None);
    let mut module = Module::new("m");
    module.create_extern_function("f", &vec![], Type::Void);
    let function = module.function_table.functions.pop().unwrap();
    let key = table.add_function("f", function);
    assert_eq!(key.name, "f");
    assert_eq!(table.index_of(&key), Some(0));
}

#[test]
fn new_block_carries_the_placeholder_until_a_terminal_replaces_it() {
    let (mut module, key, block) = module_with_block();
    assert_eq!(block, Block { parent: 0, index: 0 });
    assert_eq!(block.get_parent(), 0);
    assert_eq!(block.get_block(), 0);
    assert_eq!(module.get_block_name(block), "f");
    assert!(module.has_default_block_terminal(block));
    assert!(function(&module, &key).has_default_block_terminal(block));
    assert_eq!(function(&module, &key).get_block_terminal(block), Some(TerminalInstruction::Default));

    // an instruction does not touch the terminal
    module.create_global_string(block, "text");
    assert!(module.has_default_block_terminal(block));

    let second = module.new_block("second", &key);
    module.add_branch(block, second);
    assert!(!module.has_default_block_terminal(block));
    assert!(module.has_default_block_terminal(second));
    assert_eq!(
        function(&module, &key).get_block_terminal(block),
        Some(TerminalInstruction::Branch { target: second })
    );

    // the next terminal takes the place of the last
    module.add_return_void(block);
    assert_eq!(
        function(&module, &key).get_block_terminal(block),
        Some(TerminalInstruction::ReturnVoid)
    );
    module.set_block_terminal(block, TerminalInstruction::Default);
    assert!(module.has_default_block_terminal(block));
}

#[test]
fn deleted_terminal_is_not_registered() {
    let (mut module, key, block) = module_with_block();
    module.function_table.get_function_mut(&key).unwrap().delete_block_terminal(block);
    assert_eq!(function(&module, &key).get_block_terminal(block), None);
    assert!(!module.has_default_block_terminal(block));
    assert!(!function(&module, &key).has_default_block_terminal(block));
    module.set_block_terminal(block, TerminalInstruction::ReturnVoid);
    assert_eq!(
        function(&module, &key).get_block_terminal(block),
        Some(TerminalInstruction::ReturnVoid)
    );
}

#[test]
fn function_keeps_the_terminals_of_its_own_blocks_only() {
    let mut module = Module::new("main");
    let f = module.create_function("f", &vec![], Type::Void);
    let g = module.create_function("g", &vec![], Type::Void);
    let of_f = module.new_block("f", &f);
    let of_g = module.new_block("g", &g);
    module.add_return_void(of_g);
    assert_eq!(function(&module, &f).get_block_terminal(of_g), None);
    assert!(!function(&module, &f).has_default_block_terminal(of_g));
    assert!(function(&module, &f).has_default_block_terminal(of_f));
    let mut copy = module.function_table.functions.pop().unwrap();
    copy.set_block_terminal(of_f, TerminalInstruction::ReturnVoid);
    assert_eq!(copy.get_block_terminal(of_g), Some(TerminalInstruction::ReturnVoid));
    copy.delete_block_terminal(of_g);
    assert_eq!(copy.get_block_terminal(of_g), None);
    let added = copy.add_block("more");
    assert_eq!(added, Block { parent: 1, index: 1 });
    assert_eq!(copy.get_block_terminal(added), None);
    copy.add_learned_value(argument(0, INT));
    assert_eq!(copy.learned_values, vec![argument(0, INT)]);
    // a terminal that is not registered cannot be changed
    assert!(copy.get_block_terminal_mut(of_g).is_none());
    assert!(copy.get_block_terminal_mut(added).is_none());
    assert!(copy.get_block_terminal_mut(of_f).is_none());
    copy.set_block_terminal(of_g, TerminalInstruction::ReturnVoid);
    *copy.get_block_terminal_mut(of_g).unwrap() = TerminalInstruction::Default;
    assert_eq!(copy.get_block_terminal(of_g), Some(TerminalInstruction::Default));
    assert!(copy.has_default_block_terminal(of_g));
}

#[test]
fn split_gives_a_new_cursor_and_hands_back_the_old_block() {
    let (mut module, key, block) = module_with_block();
    let mut cursor = block;
    let old = module.split_block_in_place(&mut cursor);
    assert_eq!(old, block);
    assert_eq!(cursor, Block { parent: 0, index: 1 });
    assert_eq!(module.get_block_name(cursor), "fcont");
    assert!(module.has_default_block_terminal(cursor));
    assert!(module.has_default_block_terminal(old));
    assert_eq!(function(&module, &key).blocks.len(), 2);
}

#[test]
fn moving_a_block_changes_the_order_and_nothing_else() {
    let (mut module, key, first) = module_with_block();
    let second = module.new_block("second", &key);
    let third = module.new_block("third", &key);
    let fourth = module.new_block("fourth", &key);
    module.add_branch(first, fourth);
    assert_eq!(function(&module, &key).layout, vec![0, 1, 2, 3]);
    module.move_block_after(fourth, first);
    assert_eq!(function(&module, &key).layout, vec![0, 3, 1, 2]);
    module.move_block_before(third, first);
    assert_eq!(function(&module, &key).layout, vec![2, 0, 3, 1]);
    module.move_block_after(second, second);
    assert_eq!(function(&module, &key).layout, vec![2, 0, 3, 1]);
    module.move_block_after(third, second);
    assert_eq!(function(&module, &key).layout, vec![0, 3, 1, 2]);
    // a block that is not there moves nothing
    module.move_block_after(first, Block { parent: 0, index: 9 });
    assert_eq!(function(&module, &key).layout, vec![0, 3, 1, 2]);
    module.move_block_after(first, Block { parent: 5, index: 0 });
    assert_eq!(function(&module, &key).layout, vec![0, 3, 1, 2]);
    module.move_block_before(Block { parent: 0, index: 9 }, first);
    assert_eq!(function(&module, &key).layout, vec![0, 3, 1, 2]);
    module.move_block_before(second, third);
    assert_eq!(function(&module, &key).layout, vec![0, 3, 1, 2]);
    module.move_block_before(third, second);
    assert_eq!(function(&module, &key).layout, vec![0, 3, 2, 1]);
    assert_eq!(
        function(&module, &key).get_block_terminal(first),
        Some(TerminalInstruction::Branch { target: fourth })
    );
}

#[test]
fn addition_of_integers_of_two_widths_widens_the_narrower() {
    let (mut module, _, block) = module_with_block();
    let narrow = Value { type_enum: Type::Integer(0, 32), value: ValueRef::Argument { function: 0, index: 0 } };
    let wide = module.create_immediate_integer(7);
    assert_eq!(wide, Value { type_enum: INT, value: ValueRef::Integer { bits: 64, number: 7 } });
    let sum = module.add_addition(block, narrow, wide).unwrap();
    assert_eq!(sum, Value { type_enum: INT, value: result_of(block, 1) });
    assert_eq!(opcodes(&module, block), vec![Opcode::IntegerCast, Opcode::Add]);
    assert_eq!(instruction(&module, block, 0).type_enum, INT);
    assert_eq!(instruction(&module, block, 0).operands, vec![narrow.value]);
    assert_eq!(instruction(&module, block, 1).operands, vec![result_of(block, 0), wide.value]);
}

#[test]
fn arithmetic_on_an_integer_and_a_float_is_done_on_floats() {
    let (mut module, _, block) = module_with_block();
    let product = module.add_multiplication(block, argument(0, INT), argument(1, Type::Float(0))).unwrap();
    assert_eq!(product.type_enum, Type::Float(0));
    assert_eq!(opcodes(&module, block), vec![Opcode::IntegerToFloat, Opcode::FloatMultiply]);
    let difference = module.add_subtraction(block, argument(1, Type::Float(0)), argument(1, Type::Float(0))).unwrap();
    assert_eq!(difference.type_enum, Type::Float(0));
    assert_eq!(opcodes(&module, block)[2], Opcode::FloatSubtract);
    let sum = module.add_addition(block, argument(0, INT), argument(0, INT)).unwrap();
    assert_eq!(sum.type_enum, INT);
    assert_eq!(opcodes(&module, block)[3], Opcode::Add);
}

#[test]
fn operands_behind_addresses_are_loaded_first() {
    let (mut module, _, block) = module_with_block();
    let address = Value { type_enum: Type::Integer(1, 64), value: ValueRef::Global { index: 0 } };
    let sum = module.add_addition(block, address, address).unwrap();
    assert_eq!(opcodes(&module, block), vec![Opcode::Load, Opcode::Load, Opcode::Add]);
    assert_eq!(instruction(&module, block, 0).type_enum, INT);
    assert_eq!(instruction(&module, block, 2).operands, vec![result_of(block, 0), result_of(block, 1)]);
    assert_eq!(sum.value, result_of(block, 2));
    // one load takes one pointer away
    let deep = Value { type_enum: Type::Float(2), value: ValueRef::Global { index: 1 } };
    let resolved = module.resolve_value(block, deep);
    assert_eq!(resolved.type_enum, Type::Float(1));
    // what is no address of a number is left alone
    let text = Value { type_enum: Type::CString(1), value: ValueRef::Global { index: 2 } };
    assert_eq!(module.resolve_value(block, text), text);
    assert_eq!(opcodes(&module, block).len(), 4);
}

#[test]
fn division_is_always_done_on_floats() {
    let (mut module, _, block) = module_with_block();
    let quotient = module.add_division(block, argument(0, INT), argument(0, INT)).unwrap();
    assert_eq!(quotient.type_enum, Type::Float(0));
    assert_eq!(
        opcodes(&module, block),
        vec![Opcode::IntegerToFloat, Opcode::IntegerToFloat, Opcode::FloatDivide]
    );
    let text = Value { type_enum: Type::CString(0), value: ValueRef::Global { index: 0 } };
    assert!(matches!(
        module.add_division(block, text, argument(0, INT)),
        Err(MathError::UnsupportedOperation)
    ));
    assert_eq!(opcodes(&module, block).len(), 3);
}

#[test]
fn comparisons_yield_one_bit() {
    let (mut module, _, block) = module_with_block();
    let a = argument(0, INT);
    let b = argument(1, Type::Float(0));
    let results = vec![
        module.add_less_than(block, a, a).unwrap(),
        module.add_greater_than(block, a, a).unwrap(),
        module.add_less_than_equal_to(block, a, a).unwrap(),
        module.add_greater_than_equal_to(block, a, a).unwrap(),
        module.add_equals(block, a, a).unwrap(),
        module.add_not_equals(block, a, a).unwrap(),
    ];
    for result in &results {
        assert_eq!(result.type_enum, Type::Integer(0, 1));
    }
    assert_eq!(
        opcodes(&module, block),
        vec![
            Opcode::IntegerCompare(CompareOperation::LessThan),
            Opcode::IntegerCompare(CompareOperation::GreaterThan),
            Opcode::IntegerCompare(CompareOperation::LessThanEqualTo),
            Opcode::IntegerCompare(CompareOperation::GreaterThanEqualTo),
            Opcode::IntegerCompare(CompareOperation::Equals),
            Opcode::IntegerCompare(CompareOperation::NotEquals),
        ]
    );
    module.add_less_than(block, a, b).unwrap();
    assert_eq!(
        opcodes(&module, block)[6..],
        [Opcode::IntegerToFloat, Opcode::FloatCompare(CompareOperation::LessThan)]
    );
    // integers of any width are compared
    let bit = results[0];
    let compared = module.add_equals(block, bit, bit).unwrap();
    assert_eq!(compared.type_enum, Type::Integer(0, 1));
    assert_eq!(opcodes(&module, block)[8], Opcode::IntegerCompare(CompareOperation::Equals));
    assert_eq!(instruction(&module, block, 8).operands, vec![bit.value, bit.value]);
    let text = Value { type_enum: Type::CString(0), value: ValueRef::Global { index: 0 } };
    assert!(matches!(
        module.add_equals(block, text, a),
        Err(MathError::IncompatibleTypes(Type::CString(0), Type::Integer(0, 64)))
    ));
}

#[test]
fn bitwise_operations_are_for_integers_only() {
    let (mut module, _, block) = module_with_block();
    let a = argument(0, INT);
    let b = argument(1, Type::Float(0));
    assert_eq!(module.add_bitwise_and(block, a, a).unwrap().type_enum, INT);
    assert_eq!(module.add_bitwise_or(block, a, a).unwrap().type_enum, INT);
    assert_eq!(module.add_bitwise_xor(block, a, a).unwrap().type_enum, INT);
    assert_eq!(opcodes(&module, block), vec![Opcode::And, Opcode::Or, Opcode::Xor]);
    assert!(matches!(module.add_bitwise_and(block, a, b), Err(MathError::UnsupportedOperation)));
    assert!(matches!(module.add_bitwise_or(block, b, b), Err(MathError::UnsupportedOperation)));
    assert!(matches!(module.add_bitwise_xor(block, b, a), Err(MathError::UnsupportedOperation)));
    assert!(matches!(module.add_bitwise_not(block, b), Err(MathError::UnsupportedOperation)));
    assert_eq!(opcodes(&module, block).len(), 3);
    let inverted = module.add_bitwise_not(block, a).unwrap();
    assert_eq!(inverted.type_enum, INT);
    assert_eq!(
        instruction(&module, block, 3).operands,
        vec![ValueRef::Integer { bits: 64, number: u64::MAX }, a.value]
    );
    assert_eq!(instruction(&module, block, 3).opcode, Opcode::Xor);
}

#[test]
fn negation_subtracts_from_zero() {
    let (mut module, _, block) = module_with_block();
    let negated = module.add_negate(block, argument(0, INT)).unwrap();
    assert_eq!(negated.type_enum, INT);
    assert_eq!(instruction(&module, block, 0).opcode, Opcode::Subtract);
    assert_eq!(
        instruction(&module, block, 0).operands,
        vec![ValueRef::Integer { bits: 64, number: 0 }, ValueRef::Argument { function: 0, index: 0 }]
    );
    let negated = module.add_negate(block, argument(1, Type::Float(0))).unwrap();
    assert_eq!(negated.type_enum, Type::Float(0));
    assert_eq!(instruction(&module, block, 1).opcode, Opcode::FloatSubtract);
    assert_eq!(instruction(&module, block, 1).operands[0], ValueRef::Float { literal: 0 });
    assert_eq!(module.string_table.strings, vec!["0.0"]);
    let text = Value { type_enum: Type::CString(0), value: ValueRef::Global { index: 0 } };
    assert!(matches!(module.add_negate(block, text), Err(MathError::UnsupportedOperation)));
}

#[test]
fn logical_not_compares_with_zero() {
    let (mut module, _, block) = module_with_block();
    let not = module.add_logical_not(block, argument(0, INT)).unwrap();
    assert_eq!(not.type_enum, Type::Integer(0, 1));
    assert_eq!(instruction(&module, block, 0).opcode, Opcode::IntegerCompare(CompareOperation::Equals));
    assert_eq!(instruction(&module, block, 0).operands[1], ValueRef::Integer { bits: 64, number: 0 });
    let not = module.add_logical_not(block, argument(1, Type::Float(0))).unwrap();
    assert_eq!(not.type_enum, Type::Integer(0, 1));
    assert_eq!(instruction(&module, block, 1).opcode, Opcode::FloatCompare(CompareOperation::Equals));
    let text = Value { type_enum: Type::CString(0), value: ValueRef::Global { index: 0 } };
    assert!(matches!(module.add_logical_not(block, text), Err(MathError::UnsupportedOperation)));
}

#[test]
fn conversions_keep_the_pointer_depth_of_the_value() {
    let (mut module, _, block) = module_with_block();
    let float = argument(1, Type::Float(0));
    let truncated = module.convert_to_type(block, float, Type::Integer(1, 32));
    assert_eq!(truncated.type_enum, Type::Integer(0, 32));
    assert_eq!(instruction(&module, block, 0).opcode, Opcode::FloatToInteger);
    assert_eq!(instruction(&module, block, 0).type_enum, Type::Integer(0, 32));
    let same = module.convert_to_type(block, float, Type::Float(0));
    assert_eq!(same, float);
    // a float stands for a float at any depth
    let same = module.convert_to_type(block, float, Type::Float(1));
    assert_eq!(same, float);
    assert_eq!(opcodes(&module, block).len(), 1);
    let widened = module.math_resolve_value(block, argument(0, Type::Integer(0, 8)), INT);
    assert_eq!(widened.type_enum, INT);
    assert_eq!(opcodes(&module, block)[1], Opcode::IntegerCast);
    assert!(Type::Integer(0, 8).can_convert_to(INT));
    assert!(!INT.can_convert_to(Type::Integer(0, 8)));
    assert!(!Type::CString(0).can_convert_to(INT));
    assert!(INT.can_convert_to(Type::Float(3)));
    assert_eq!(module.upgrade_type(INT), Type::Integer(1, 64));
    assert_eq!(module.downgrade_type(Type::Float(2)), Type::Float(1));
}

#[test]
fn float_immediates_keep_their_text() {
    let mut module = Module::new("main");
    let first = module.create_immediate_float("1.5");
    let second = module.create_immediate_float("1.5");
    assert_eq!(first, Value { type_enum: Type::Float(0), value: ValueRef::Float { literal: 0 } });
    assert_eq!(second.value, ValueRef::Float { literal: 1 });
    assert_eq!(module.string_table.strings, vec!["1.5", "1.5"]);
    assert_eq!(module.string_table.get(1).unwrap(), "1.5");
    assert!(module.string_table.get(2).is_none());
    let mut table = StringTable::default();
    assert_eq!(table.to_llvm_string("a"), 0);
    assert_eq!(table.to_mut_llvm_string("b"), 1);
    assert_eq!(table.strings, vec!["a", "b"]);
}

#[test]
fn variables_of_a_function_hide_those_of_the_module() {
    let (mut module, _, block) = module_with_block();
    let global = module.add_global_variable("x", Type::Float(0));
    assert_eq!(global, Value { type_enum: Type::Float(1), value: ValueRef::Global { index: 0 } });
    assert_eq!(module.get_variable(block, "x").unwrap(), global);
    let local = module.add_mutable_variable(block, "x", INT);
    assert_eq!(local, Value { type_enum: Type::Integer(1, 64), value: result_of(block, 0) });
    assert_eq!(module.get_variable(block, "x").unwrap(), local);
    // seen from another function, the module's variable is found
    let other = Block { parent: 1, index: 0 };
    assert_eq!(module.get_variable(other, "x").unwrap(), global);
    // a later declaration replaces an earlier one
    let again = module.add_immutable_variable(block, "x", Type::Float(0));
    assert_eq!(module.get_variable(block, "x").unwrap(), again);
    assert_eq!(opcodes(&module, block), vec![Opcode::Allocate, Opcode::Allocate]);
    match module.get_variable(block, "y") {
        Err(MathError::UndefinedVariable(name)) => assert_eq!(name, "y"),
        other => panic!("{:?}", other),
    }
    module.add_argument(block, "y", INT, argument(0, INT));
    assert_eq!(module.get_variable(block, "y").unwrap(), argument(0, INT));
}

#[test]
fn variable_table_finds_by_scope_and_name() {
    let mut table = VariableTable::default();
    assert!(table.get(None, "x").is_none());
    let variable = |name: &str, index: usize| Variable {
        type_enum: INT,
        is_mutable: true,
        name: name.to_string(),
        value: Value { type_enum: Type::Integer(1, 64), value: ValueRef::Global { index } },
    };
    table.add(None, variable("x", 0));
    table.add(Some(3), variable("x", 1));
    table.add(None, variable("x", 2));
    assert_eq!(table.get(None, "x").unwrap().value.value, ValueRef::Global { index: 2 });
    assert_eq!(table.get(Some(3), "x").unwrap().value.value, ValueRef::Global { index: 1 });
    assert!(table.get(Some(4), "x").is_none());
    assert!(table.get(Some(3), "y").is_none());
}

#[test]
fn store_converts_to_what_the_location_points_to() {
    let (mut module, _, block) = module_with_block();
    let location = module.add_mutable_variable(block, "x", INT);
    let stored = module.add_store(block, location, argument(1, Type::Float(0))).unwrap();
    assert_eq!(stored.type_enum, Type::Void);
    assert_eq!(opcodes(&module, block), vec![Opcode::Allocate, Opcode::FloatToInteger, Opcode::Store]);
    assert_eq!(instruction(&module, block, 2).operands, vec![result_of(block, 1), location.value]);
    // what is no address cannot be stored to
    assert!(matches!(
        module.add_store(block, argument(0, INT), argument(0, INT)),
        Err(MathError::UnsupportedOperation)
    ));
    // a wider integer does not fit
    let narrow = module.add_mutable_variable(block, "n", Type::Integer(0, 8));
    assert!(matches!(
        module.add_store(block, narrow, argument(0, INT)),
        Err(MathError::UnsupportedOperation)
    ));
    // an address is not what an address of a value points to
    let deep = Value { type_enum: Type::Integer(3, 64), value: ValueRef::Global { index: 0 } };
    assert!(matches!(
        module.add_store(block, location, deep),
        Err(MathError::IncompatibleTypes(Type::Integer(1, 64), Type::Integer(2, 64)))
    ));
}

#[test]
fn array_elements_are_stored_as_floats() {
    let (mut module, _, block) = module_with_block();
    let array = module.add_immutable_array(block, Type::Float(0), 3);
    assert_eq!(array.type_enum, Type::FloatArray(3));
    let stored = module.add_store_to_array(block, array, 2, argument(0, INT)).unwrap();
    assert_eq!(stored.type_enum, Type::Void);
    assert_eq!(
        opcodes(&module, block),
        vec![Opcode::Allocate, Opcode::IntegerToFloat, Opcode::ElementAddress(2), Opcode::Store]
    );
    assert_eq!(instruction(&module, block, 2).operands, vec![array.value]);
    assert_eq!(instruction(&module, block, 3).operands, vec![result_of(block, 1), result_of(block, 2)]);
    assert!(matches!(
        module.add_store_to_array(block, argument(0, INT), 0, argument(0, INT)),
        Err(MathError::UnsupportedOperation)
    ));
    let text = Value { type_enum: Type::CString(0), value: ValueRef::Global { index: 0 } };
    assert!(matches!(
        module.add_store_to_array(block, array, 0, text),
        Err(MathError::UnsupportedOperation)
    ));
}

#[test]
fn call_holds_the_arguments_to_the_parameters() {
    let (mut module, key, block) = module_with_block();
    let address = Value { type_enum: Type::Float(1), value: ValueRef::Global { index: 0 } };
    let good = vec![argument(0, INT), address];
    assert!(module.check_call(0, &good).is_ok());
    assert!(matches!(module.check_call(0, &vec![argument(0, INT)]), Err(MathError::ArityMismatch)));
    let text = Value { type_enum: Type::CString(0), value: ValueRef::Global { index: 0 } };
    assert!(matches!(
        module.check_call(0, &vec![text, address]),
        Err(MathError::IncompatibleTypes(Type::CString(0), Type::Integer(0, 64)))
    ));
    // an integer is not handed to a float
    assert!(matches!(
        module.check_call(0, &vec![argument(0, INT), argument(0, INT)]),
        Err(MathError::IncompatibleTypes(Type::Integer(0, 64), Type::Float(0)))
    ));
    let result = module.add_function_call(block, &key, &good).unwrap();
    assert_eq!(result, Value { type_enum: INT, value: result_of(block, 1) });
    assert_eq!(opcodes(&module, block), vec![Opcode::Load, Opcode::Call(0)]);
    assert_eq!(
        instruction(&module, block, 1).operands,
        vec![ValueRef::Argument { function: 0, index: 0 }, result_of(block, 0)]
    );
}

#[test]
fn function_that_does_not_check_takes_its_arguments_as_they_are() {
    let (mut module, _, block) = module_with_block();
    let key = module.declare_function("bridge", &vec![Type::CString(0)], Type::Void, false);
    let arguments = vec![argument(0, Type::Integer(1, 64)), argument(1, Type::Float(0))];
    assert!(module.check_call(1, &arguments).is_ok());
    let result = module.add_function_call(block, &key, &arguments).unwrap();
    assert_eq!(result.type_enum, Type::Void);
    assert_eq!(opcodes(&module, block), vec![Opcode::Call(1)]);
    assert_eq!(
        instruction(&module, block, 0).operands,
        vec![ValueRef::Argument { function: 0, index: 0 }, ValueRef::Argument { function: 0, index: 1 }]
    );
}

#[test]
fn call_that_the_function_does_not_take_is_refused_and_appends_nothing() {
    let (mut module, key, block) = module_with_block();
    let address = Value { type_enum: Type::Float(1), value: ValueRef::Global { index: 0 } };
    let unknown = FunctionKey::new("_nothing");
    assert_eq!(
        module.add_function_call(block, &unknown, &vec![]),
        Err(MathError::UndefinedVariable(String::from("_nothing")))
    );
    assert_eq!(
        module.add_function_call(block, &key, &vec![argument(0, INT)]),
        Err(MathError::ArityMismatch)
    );
    let text = Value { type_enum: Type::CString(0), value: ValueRef::Global { index: 0 } };
    assert_eq!(
        module.add_function_call(block, &key, &vec![text, address]),
        Err(MathError::IncompatibleTypes(Type::CString(0), Type::Integer(0, 64)))
    );
    assert_eq!(
        module.add_function_call(block, &key, &vec![argument(0, INT), argument(0, INT)]),
        Err(MathError::IncompatibleTypes(Type::Integer(0, 64), Type::Float(0)))
    );
    assert_eq!(opcodes(&module, block), vec![]);
    assert!(module.globals.is_empty());
    assert_eq!(
        function(&module, &key).get_block_terminal(block),
        Some(TerminalInstruction::Default)
    );
}

#[test]
fn narrow_integers_are_compared_as_integers() {
    let (mut module, _, block) = module_with_block();
    let narrow = Value {
        type_enum: Type::Integer(0, 32),
        value: ValueRef::Argument { function: 0, index: 0 },
    };
    let result = module.add_less_than(block, narrow, narrow).unwrap();
    assert_eq!(result, Value { type_enum: Type::Integer(0, 1), value: result_of(block, 0) });
    assert_eq!(opcodes(&module, block), vec![Opcode::IntegerCompare(CompareOperation::LessThan)]);
    let other = module.add_not_equals(block, narrow, narrow).unwrap();
    assert_eq!(other.type_enum, Type::Integer(0, 1));
    assert_eq!(opcodes(&module, block)[1], Opcode::IntegerCompare(CompareOperation::NotEquals));
}

#[test]
fn new_block_carries_the_placeholder_in_its_function() {
    let (mut module, key, first) = module_with_block();
    let second = module.new_block("second", &key);
    assert_eq!(second, Block { parent: 0, index: 1 });
    assert_eq!(function(&module, &key).function, 0);
    assert_eq!(function(&module, &key).layout, vec![0, 1]);
    assert_eq!(
        function(&module, &key).get_block_terminal(second),
        Some(TerminalInstruction::Default)
    );
    assert!(function(&module, &key).has_default_block_terminal(second));
    assert!(module.has_default_block_terminal(first));
    let other = module.create_function("g", &vec![], Type::Void);
    let third = module.new_block("g", &other);
    assert_eq!(third, Block { parent: 1, index: 0 });
    assert_eq!(function(&module, &other).function, 1);
    assert!(function(&module, &other).has_default_block_terminal(third));
    assert!(!function(&module, &key).has_default_block_terminal(third));
}

#[test]
fn conditional_branch_on_a_wide_integer_compares_it_with_zero() {
    let (mut module, key, block) = module_with_block();
    let yes = module.new_block("yes", &key);
    let no = module.new_block("no", &key);
    module.add_branch_if_true(block, argument(0, INT), yes, no);
    assert_eq!(opcodes(&module, block), vec![Opcode::IntegerCompare(CompareOperation::NotEquals)]);
    assert_eq!(instruction(&module, block, 0).type_enum, Type::Integer(0, 1));
    assert_eq!(
        instruction(&module, block, 0).operands,
        vec![ValueRef::Argument { function: 0, index: 0 }, ValueRef::Integer { bits: 64, number: 0 }]
    );
    assert_eq!(
        function(&module, &key).get_block_terminal(block),
        Some(TerminalInstruction::ConditionalBranch {
            condition: result_of(block, 0),
            target_if_false: no,
            target_if_true: yes,
        })
    );
}

#[test]
fn conditional_branch_on_one_bit_takes_it_as_it_is() {
    let (mut module, key, block) = module_with_block();
    let yes = module.new_block("yes", &key);
    let no = module.new_block("no", &key);
    let bit = module.add_less_than(block, argument(0, INT), argument(0, INT)).unwrap();
    module.add_branch_if_true(block, bit, yes, no);
    assert_eq!(opcodes(&module, block), vec![Opcode::IntegerCompare(CompareOperation::LessThan)]);
    assert_eq!(
        function(&module, &key).get_block_terminal(block),
        Some(TerminalInstruction::ConditionalBranch {
            condition: result_of(block, 0),
            target_if_false: no,
            target_if_true: yes,
        })
    );
}

#[test]
fn return_reads_through_an_address() {
    let (mut module, key, block) = module_with_block();
    let location = module.add_mutable_variable(block, "x", INT);
    module.add_return(block, location);
    assert_eq!(opcodes(&module, block), vec![Opcode::Allocate, Opcode::Load]);
    assert_eq!(
        function(&module, &key).get_block_terminal(block),
        Some(TerminalInstruction::Return { value: result_of(block, 1) })
    );
}

#[test]
fn conditional_branch_brings_its_value_to_one_bit() {
    let (mut module, key, block) = module_with_block();
    let yes = module.new_block("yes", &key);
    let no = module.new_block("no", &key);
    module.add_branch_if_true(block, argument(1, Type::Float(0)), yes, no);
    assert_eq!(opcodes(&module, block), vec![Opcode::FloatToInteger]);
    assert_eq!(instruction(&module, block, 0).type_enum, Type::Integer(0, 1));
    assert_eq!(
        function(&module, &key).get_block_terminal(block),
        Some(TerminalInstruction::ConditionalBranch {
            condition: result_of(block, 0),
            target_if_false: no,
            target_if_true: yes,
        })
    );
}

#[test]
fn logic_block_steps_through_its_operands() {
    let (mut module, key, block) = module_with_block();
    let logic = module.new_logic_block(block, LogicOperation::And, 2);
    let first = Block { parent: 0, index: 1 };
    let second = Block { parent: 0, index: 2 };
    let end = Block { parent: 0, index: 3 };
    assert_eq!(logic.blocks, vec![first, second]);
    assert_eq!(logic.get_first_block(), first);
    assert_eq!(logic.get_current_block(), first);
    assert_eq!(*logic.get_current_block_ref(), first);
    assert_eq!(logic.get_next_block(), Some(second));
    assert_eq!(logic.get_end(), end);
    assert_eq!(module.get_block_name(first), "logicstep_And");
    assert_eq!(module.get_block_name(end), "end");

    let logic = module.add_logic(logic, argument(0, INT)).unwrap();
    assert_eq!(logic.get_current_block(), second);
    assert_eq!(logic.get_next_block(), None);
    assert_eq!(opcodes(&module, first), vec![Opcode::IntegerCompare(CompareOperation::Equals)]);
    assert_eq!(
        function(&module, &key).get_block_terminal(first),
        Some(TerminalInstruction::ConditionalBranch {
            condition: result_of(first, 0),
            target_if_false: second,
            target_if_true: end,
        })
    );
    let logic = module.add_logic(logic, argument(0, INT)).unwrap();
    assert_eq!(
        function(&module, &key).get_block_terminal(second),
        Some(TerminalInstruction::Branch { target: end })
    );
    assert_eq!(logic.values, vec![argument(0, INT), argument(0, INT)]);
    let (value, joined) = module.commit_logic_block(logic).unwrap();
    assert_eq!(joined, end);
    assert_eq!(value, Value { type_enum: INT, value: result_of(end, 0) });
    let merge = instruction(&module, end, 0);
    assert_eq!(merge.opcode, Opcode::Merge);
    assert_eq!(merge.blocks, vec![first, second]);
    assert_eq!(merge.operands, vec![argument(0, INT).value, argument(0, INT).value]);
}

#[test]
fn disjunction_ends_where_an_operand_is_not_zero() {
    let (mut module, _, block) = module_with_block();
    let mut logic = module.new_logic_block(block, LogicOperation::Or, 2);
    assert_eq!(module.get_block_name(logic.get_first_block()), "logicstep_Or");
    // another block can take the place of the current step
    let spliced = module.new_block_at("spliced", 0);
    *logic.get_current_block_mut() = spliced;
    assert_eq!(logic.get_current_block(), spliced);
    module.add_logic(logic, argument(0, INT)).unwrap();
    assert_eq!(opcodes(&module, spliced), vec![Opcode::IntegerCompare(CompareOperation::NotEquals)]);
}

#[test]
fn struct_types_are_found_by_name() {
    let (mut module, _, block) = module_with_block();
    module.create_struct_type(
        "Point",
        vec![
            Property { name: "x".to_string(), type_enum: Type::Float(0) },
            Property { name: "y".to_string(), type_enum: INT },
        ],
    );
    module.create_struct_type("Empty", vec![]);
    assert_eq!(module.lookup_struct_type_index("Point"), 0);
    assert_eq!(module.lookup_struct_type_index("Empty"), 1);
    assert_eq!(module.type_table.index_of("Missing"), None);

    let object = Value { type_enum: Type::Struct(1, 0), value: ValueRef::Global { index: 0 } };
    let stored = module.add_store_to_obj(block, object, "y", argument(0, INT)).unwrap();
    assert_eq!(stored.type_enum, INT);
    assert_eq!(opcodes(&module, block), vec![Opcode::FieldAddress(0, 1), Opcode::Store]);
    assert_eq!(instruction(&module, block, 1).operands, vec![argument(0, INT).value, result_of(block, 0)]);
    match module.add_store_to_obj(block, object, "z", argument(0, INT)) {
        Err(MathError::UndefinedVariable(name)) => assert_eq!(name, "z"),
        other => panic!("{:?}", other),
    }
    assert!(matches!(
        module.add_store_to_obj(block, argument(0, INT), "x", argument(0, INT)),
        Err(MathError::UnsupportedOperation)
    ));
    let unknown = Value { type_enum: Type::Struct(1, 7), value: ValueRef::Global { index: 0 } };
    assert!(matches!(
        module.add_store_to_obj(block, unknown, "x", argument(0, INT)),
        Err(MathError::UnsupportedOperation)
    ));
}

#[test]
fn struct_is_allocated_by_the_allocator() {
    let (mut module, _, block) = module_with_block();
    module.create_struct_type("Point", vec![]);
    // without an allocator nothing can be allocated
    assert!(!module.check_struct_malloc("Point"));
    module.create_extern_function("malloc", &vec![Type::Integer(0, 32)], Type::CString(0));
    assert!(module.check_struct_malloc("Point"));
    assert!(!module.check_struct_malloc("Missing"));
    let address = module.add_struct_malloc(block, "Point");
    assert_eq!(address, Value { type_enum: Type::Struct(1, 0), value: result_of(block, 0) });
    assert_eq!(opcodes(&module, block), vec![Opcode::Call(1)]);
    assert_eq!(instruction(&module, block, 0).operands, vec![ValueRef::StructSize { index: 0 }]);
}

#[test]
fn entry_point_hands_the_program_to_the_runtime() {
    let mut module = Module::new("main");
    let start = module.create_function("main", &vec![], Type::Void);
    let tick = module.create_function("tick", &vec![], Type::Float(0));
    let learner = module.create_function("learn", &vec![INT, INT], INT);
    module.function_table.functions[2].add_learned_value(argument(0, INT));
    assert!(module.check_entry().is_ok());
    module.write_bitcode().unwrap();

    let names: Vec<&str> =
        module.function_table.functions.iter().map(|function| function.name.as_str()).collect();
    assert_eq!(
        names,
        vec!["_main", "_tick", "_learn", "airt_register_function", "airt_init", "airt_train", "main"]
    );
    assert!(!module.function_table.functions[4].check_arguments);
    let main = Block { parent: 6, index: 0 };
    let body = opcodes(&module, main);
    let mut expected = vec![
        Opcode::Allocate,
        Opcode::Store,
        Opcode::Load,
        Opcode::Allocate,
        Opcode::Store,
        Opcode::Load,
        Opcode::Call(4),
    ];
    for position in 0..7 {
        expected.push(Opcode::GlobalString(position));
    }
    expected.push(Opcode::Call(3));
    expected.push(Opcode::Call(0));
    expected.push(Opcode::Call(5));
    assert_eq!(body, expected);
    assert_eq!(module.string_table.strings[2], "_learn");
    // the start function is stored and read back, then the tick function
    assert_eq!(instruction(&module, main, 1).operands[0], ValueRef::Function { index: 0 });
    assert_eq!(instruction(&module, main, 4).operands[0], ValueRef::Function { index: 1 });
    assert_eq!(instruction(&module, main, 6).operands, vec![result_of(main, 2), result_of(main, 5)]);
    // the learner is registered with its two parameters and one learned value
    assert_eq!(
        instruction(&module, main, 14).operands,
        vec![
            result_of(main, 9),
            ValueRef::Integer { bits: 64, number: 2 },
            ValueRef::Integer { bits: 64, number: 1 },
        ]
    );
    assert_eq!(
        module.function_table.functions[6].get_block_terminal(main),
        Some(TerminalInstruction::Return { value: ValueRef::Integer { bits: 64, number: 0 } })
    );
    assert_eq!(start.name, "_main");
    assert_eq!(tick.name, "_tick");
    assert_eq!(learner.name, "_learn");
}

#[test]
fn entry_point_needs_a_start_and_a_tick_function() {
    let mut module = Module::new("main");
    match module.write_bitcode() {
        Err(MathError::UndefinedVariable(name)) => assert_eq!(name, "_main"),
        other => panic!("{:?}", other),
    }
    module.create_function("main", &vec![INT], Type::Void);
    match module.write_bitcode() {
        Err(MathError::UndefinedVariable(name)) => assert_eq!(name, "_tick"),
        other => panic!("{:?}", other),
    }
    module.create_function("tick", &vec![], Type::Void);
    // the start function is called without arguments
    assert!(matches!(module.write_bitcode(), Err(MathError::ArityMismatch)));
    module.create_function("main", &vec![], Type::Void);
    assert!(module.check_entry().is_ok());
    // a function that learns without arguments cannot be registered
    module.function_table.functions[1].add_learned_value(argument(0, INT));
    assert!(matches!(module.write_bitcode(), Err(MathError::UnsupportedOperation)));
    assert_eq!(module.function_table.functions.len(), 3);
}
