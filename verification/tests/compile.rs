use ai_dsl2_compiler::block::{
    Block, CompareOperation, Instruction, Opcode, TerminalInstruction, Value, ValueRef,
};
use ai_dsl2_compiler::compiler::compile::{compile_pair, compile_pairs, CompilationContext};
use ai_dsl2_compiler::function_table::{Function, FunctionKey};
use ai_dsl2_compiler::module::Module;
use ai_dsl2_compiler::parser::{Node, Rule};
use ai_dsl2_compiler::types::{MathError, Type};

fn leaf(rule: Rule, text: &str) -> Node {
    Node::new(rule, text, vec![])
}

fn node(rule: Rule, children: Vec<Node>) -> Node {
    Node::new(rule, "", children)
}

fn token(name: &str) -> Node {
    leaf(Rule::Token, name)
}

fn integer(text: &str) -> Node {
    leaf(Rule::Integer, text)
}

fn operator(rule: Rule) -> Node {
    leaf(rule, "")
}

fn math(tokens: Vec<Node>) -> Node {
    node(Rule::Math, tokens)
}

fn function(name: &str, parameters: &[(&str, &str)], returned: Option<&str>, body: Vec<Node>) -> Node {
    let mut arguments = Vec::new();
    for (parameter, kind) in parameters {
        arguments.push(leaf(Rule::TypeToken, kind));
        arguments.push(token(parameter));
    }
    let mut children = vec![token(name), node(Rule::FunctionDeclarationArgs, arguments)];
    if let Some(returned) = returned {
        children.push(leaf(Rule::TypeToken, returned));
    }
    children.push(node(Rule::FunctionBody, body));
    node(Rule::Function, children)
}

fn declaration(kind: &str, name: &str, value: Node) -> Node {
    node(Rule::VariableDeclaration, vec![leaf(Rule::TypeToken, kind), token(name), value])
}

fn assignment(name: &str, value: Node) -> Node {
    node(Rule::VariableAssignment, vec![token(name), value])
}

fn give_back(value: Node) -> Node {
    node(Rule::ReturnStatement, vec![value])
}

fn compile_program(program: Vec<Node>) -> Result<CompilationContext, MathError> {
    let mut context = CompilationContext::new();
    compile_pairs(&mut context, &node(Rule::EndOfInput, program))?;
    Ok(context)
}

fn find<'a>(module: &'a Module, name: &str) -> &'a Function {
    module.function_table.get_function(&FunctionKey::new(name)).unwrap()
}

fn instructions(function: &Function, block: usize) -> &Vec<Instruction> {
    &function.blocks[block].instructions
}

fn terminal(function: &Function, block: usize) -> TerminalInstruction {
    function.blocks[block].terminal
}

fn is_real(terminal: TerminalInstruction) -> bool {
    matches!(
        terminal,
        TerminalInstruction::Branch { .. }
            | TerminalInstruction::ConditionalBranch { .. }
            | TerminalInstruction::Return { .. }
            | TerminalInstruction::ReturnVoid
    )
}

fn calls_of(module: &Module, function: &Function, callee: &str) -> usize {
    let mut count = 0;
    for block in &function.blocks {
        for instruction in &block.instructions {
            if let Opcode::Call(index) = instruction.opcode {
                if module.function_table.functions[index].name == callee {
                    count += 1;
                }
            }
        }
    }
    count
}

fn every_block_is_finished(module: &Module) -> bool {
    module
        .function_table
        .functions
        .iter()
        .all(|function| function.blocks.iter().all(|block| is_real(block.terminal)))
}

/// Runs a function that takes nothing and uses integers only, and returns
/// what it returns together with the blocks it passed through.
fn run(function: &Function) -> (u64, Vec<usize>) {
    let mut results: std::collections::HashMap<(usize, usize), u64> = std::collections::HashMap::new();
    let mut visited = Vec::new();
    let mut previous: Option<usize> = None;
    let mut current = 0usize;
    loop {
        visited.push(current);
        let block = &function.blocks[current];
        for (position, instruction) in block.instructions.iter().enumerate() {
            let read = |value: &ValueRef, results: &std::collections::HashMap<(usize, usize), u64>| match value {
                ValueRef::Integer { number, .. } => *number,
                ValueRef::Instruction { block, index } => results[&(block.index, *index)],
                other => panic!("cannot read {:?}", other),
            };
            let result = match instruction.opcode {
                Opcode::IntegerCompare(operation) => {
                    let lhs = read(&instruction.operands[0], &results);
                    let rhs = read(&instruction.operands[1], &results);
                    (match operation {
                        CompareOperation::Equals => lhs == rhs,
                        CompareOperation::NotEquals => lhs != rhs,
                        CompareOperation::LessThan => lhs < rhs,
                        CompareOperation::LessThanEqualTo => lhs <= rhs,
                        CompareOperation::GreaterThan => lhs > rhs,
                        CompareOperation::GreaterThanEqualTo => lhs >= rhs,
                    }) as u64
                },
                Opcode::IntegerCast => read(&instruction.operands[0], &results),
                Opcode::Add => read(&instruction.operands[0], &results)
                    .wrapping_add(read(&instruction.operands[1], &results)),
                Opcode::Merge => {
                    let from = previous.unwrap();
                    let at = instruction.blocks.iter().position(|block| block.index == from).unwrap();
                    read(&instruction.operands[at], &results)
                },
                other => panic!("cannot run {:?}", other),
            };
            results.insert((current, position), result);
        }
        match block.terminal {
            TerminalInstruction::Branch { target } => {
                previous = Some(current);
                current = target.index;
            },
            TerminalInstruction::ConditionalBranch { condition, target_if_true, target_if_false } => {
                let holds = match condition {
                    ValueRef::Integer { number, .. } => number,
                    ValueRef::Instruction { block, index } => results[&(block.index, index)],
                    other => panic!("cannot read {:?}", other),
                };
                previous = Some(current);
                current = if holds != 0 { target_if_true.index } else { target_if_false.index };
            },
            TerminalInstruction::Return { value } => {
                let result = match value {
                    ValueRef::Integer { number, .. } => number,
                    ValueRef::Instruction { block, index } => results[&(block.index, index)],
                    other => panic!("cannot read {:?}", other),
                };
                return (result, visited);
            },
            other => panic!("block {} ends in {:?}", current, other),
        }
    }
}

#[test]
fn add_compiles_to_one_block_with_an_addition_and_a_return() {
    // fn add(a: int, b: int): int { return a + b; }
    let context = compile_program(vec![function(
        "add",
        &[("a", "int"), ("b", "int")],
        Some("int"),
        vec![give_back(math(vec![token("a"), operator(Rule::Addition), token("b")]))],
    )])
    .unwrap();
    let module = &context.module;
    assert_eq!(module.function_table.functions.len(), 9);
    let add = find(module, "_add");
    assert_eq!(add.function, 8);
    assert_eq!(add.argument_types, vec![Type::Integer(0, 64), Type::Integer(0, 64)]);
    assert_eq!(add.return_type, Type::Integer(0, 64));
    assert_eq!(add.blocks.len(), 1);
    assert_eq!(add.blocks[0].name, "add");
    let body = instructions(add, 0);
    assert_eq!(body.len(), 1);
    assert_eq!(body[0].opcode, Opcode::Add);
    assert_eq!(body[0].type_enum, Type::Integer(0, 64));
    assert_eq!(
        body[0].operands,
        vec![
            ValueRef::Argument { function: 8, index: 0 },
            ValueRef::Argument { function: 8, index: 1 },
        ]
    );
    let entry = Block { parent: 8, index: 0 };
    assert_eq!(
        terminal(add, 0),
        TerminalInstruction::Return { value: ValueRef::Instruction { block: entry, index: 0 } }
    );
    assert!(context.current_block.is_none());
    assert!(context.current_function.is_none());
    assert!(every_block_is_finished(module));
}

#[test]
fn while_loop_makes_condition_body_and_continuation() {
    // fn count() { int x = 0; while (x < 10) { x = x + 1; } }
    let context = compile_program(vec![function(
        "count",
        &[],
        None,
        vec![
            declaration("int", "x", math(vec![integer("0")])),
            node(
                Rule::WhileLoop,
                vec![
                    math(vec![token("x"), operator(Rule::LessThan), integer("10")]),
                    node(
                        Rule::FunctionBody,
                        vec![assignment(
                            "x",
                            math(vec![token("x"), operator(Rule::Addition), integer("1")]),
                        )],
                    ),
                ],
            ),
        ],
    )])
    .unwrap();
    let count = find(&context.module, "_count");
    let block = |index: usize| Block { parent: count.function, index };
    assert_eq!(count.blocks.len(), 4);
    assert_eq!(count.blocks[1].name, "while_condition");
    assert_eq!(count.blocks[2].name, "while_body");
    assert_eq!(count.blocks[3].name, "countcont");
    assert_eq!(terminal(count, 0), TerminalInstruction::Branch { target: block(1) });
    match terminal(count, 1) {
        TerminalInstruction::ConditionalBranch { condition, target_if_true, target_if_false } => {
            assert_eq!(target_if_true, block(2));
            assert_eq!(target_if_false, block(3));
            // the condition is the comparison, which follows the load of `x`
            assert_eq!(condition, ValueRef::Instruction { block: block(1), index: 1 });
        },
        other => panic!("the condition ends in {:?}", other),
    }
    let condition = instructions(count, 1);
    assert_eq!(condition[0].opcode, Opcode::Load);
    assert_eq!(condition[1].opcode, Opcode::IntegerCompare(CompareOperation::LessThan));
    assert_eq!(condition[1].type_enum, Type::Integer(0, 1));
    assert_eq!(terminal(count, 2), TerminalInstruction::Branch { target: block(1) });
    // the continuation falls through to the end of the function
    assert_eq!(terminal(count, 3), TerminalInstruction::ReturnVoid);
    assert!(every_block_is_finished(&context.module));
}

#[test]
fn if_without_else_has_two_edges_that_meet_behind_the_chain() {
    // fn f(a: int) { if (a < 1) { a = 2; } }
    let context = compile_program(vec![function(
        "f",
        &[("a", "int")],
        None,
        vec![
            declaration("int", "x", math(vec![integer("0")])),
            node(
                Rule::IfStatement,
                vec![
                    math(vec![token("x"), operator(Rule::LessThan), integer("1")]),
                    node(
                        Rule::IfStatementBody,
                        vec![assignment("x", math(vec![integer("2")]))],
                    ),
                ],
            ),
        ],
    )])
    .unwrap();
    let f = find(&context.module, "_f");
    let block = |index: usize| Block { parent: f.function, index };
    assert_eq!(f.blocks.len(), 3);
    assert_eq!(f.blocks[1].name, "if_body");
    assert_eq!(f.blocks[2].name, "fcont");
    match terminal(f, 0) {
        TerminalInstruction::ConditionalBranch { target_if_true, target_if_false, .. } => {
            assert_eq!(target_if_true, block(1));
            assert_eq!(target_if_false, block(2));
        },
        other => panic!("the condition ends in {:?}", other),
    }
    assert_eq!(terminal(f, 1), TerminalInstruction::Branch { target: block(2) });
    assert_eq!(terminal(f, 2), TerminalInstruction::ReturnVoid);
    // the block behind the chain is written out behind the body
    assert_eq!(f.layout, vec![0, 1, 2]);
    assert!(every_block_is_finished(&context.module));
}

#[test]
fn if_else_if_else_has_three_bodies_that_meet_behind_the_chain() {
    // fn f() { int x = 0; if (x < 1) { x = 1; } else if (x < 2) { return; } else { x = 3; } }
    let context = compile_program(vec![function(
        "f",
        &[],
        None,
        vec![
            declaration("int", "x", math(vec![integer("0")])),
            node(
                Rule::IfStatement,
                vec![
                    math(vec![token("x"), operator(Rule::LessThan), integer("1")]),
                    node(
                        Rule::IfStatementBody,
                        vec![assignment("x", math(vec![integer("1")]))],
                    ),
                    node(
                        Rule::ElseIfStatement,
                        vec![
                            math(vec![token("x"), operator(Rule::LessThan), integer("2")]),
                            node(
                                Rule::IfStatementBody,
                                vec![node(Rule::VoidReturnStatement, vec![])],
                            ),
                        ],
                    ),
                    node(
                        Rule::ElseStatement,
                        vec![node(
                            Rule::IfStatementBody,
                            vec![assignment("x", math(vec![integer("3")]))],
                        )],
                    ),
                ],
            ),
        ],
    )])
    .unwrap();
    let f = find(&context.module, "_f");
    let block = |index: usize| Block { parent: f.function, index };
    let names: Vec<&str> = f.blocks.iter().map(|block| block.name.as_str()).collect();
    assert_eq!(
        names,
        vec!["f", "if_body", "fcont", "else_if_condition", "else_if_body", "else_body"]
    );
    let continued = block(2);
    // the first arm leads to its body, else into the condition of the second
    match terminal(f, 0) {
        TerminalInstruction::ConditionalBranch { target_if_true, target_if_false, .. } => {
            assert_eq!(target_if_true, block(1));
            assert_eq!(target_if_false, block(3));
        },
        other => panic!("the first condition ends in {:?}", other),
    }
    // the second arm leads to its body, else into the body of the last
    match terminal(f, 3) {
        TerminalInstruction::ConditionalBranch { target_if_true, target_if_false, .. } => {
            assert_eq!(target_if_true, block(4));
            assert_eq!(target_if_false, block(5));
        },
        other => panic!("the second condition ends in {:?}", other),
    }
    // the bodies that fall through meet behind the chain
    assert_eq!(terminal(f, 1), TerminalInstruction::Branch { target: continued });
    assert_eq!(terminal(f, 5), TerminalInstruction::Branch { target: continued });
    // the body that returns is left alone
    assert_eq!(terminal(f, 4), TerminalInstruction::ReturnVoid);
    assert_eq!(terminal(f, 2), TerminalInstruction::ReturnVoid);
    assert_eq!(*f.layout.last().unwrap(), 2);
    assert!(every_block_is_finished(&context.module));
}

#[test]
fn short_circuit_and_stops_at_the_first_zero() {
    // fn f(): int { return 1 && 0 && 1; }
    let context = compile_program(vec![function(
        "f",
        &[],
        Some("int"),
        vec![give_back(math(vec![
            integer("1"),
            operator(Rule::LogicalAnd),
            integer("0"),
            operator(Rule::LogicalAnd),
            integer("1"),
        ]))],
    )])
    .unwrap();
    let f = find(&context.module, "_f");
    let names: Vec<&str> = f.blocks.iter().map(|block| block.name.as_str()).collect();
    assert_eq!(names, vec!["f", "logicstep_And", "logicstep_And", "logicstep_And", "end"]);
    let (result, visited) = run(f);
    assert_eq!(result, 0);
    assert_eq!(visited, vec![0, 1, 2, 4]);
    let merge = &instructions(f, 4)[0];
    assert_eq!(merge.opcode, Opcode::Merge);
    assert_eq!(merge.type_enum, Type::Integer(0, 64));
    assert_eq!(merge.operands.len(), 3);
    assert!(every_block_is_finished(&context.module));
}

#[test]
fn short_circuit_or_runs_to_the_last_operand() {
    // fn f(): int { return 0 || 0 || 5; }
    let context = compile_program(vec![function(
        "f",
        &[],
        Some("int"),
        vec![give_back(math(vec![
            integer("0"),
            operator(Rule::LogicalOr),
            integer("0"),
            operator(Rule::LogicalOr),
            integer("5"),
        ]))],
    )])
    .unwrap();
    let f = find(&context.module, "_f");
    let (result, visited) = run(f);
    assert_eq!(result, 5);
    assert_eq!(visited, vec![0, 1, 2, 3, 4]);
    assert!(every_block_is_finished(&context.module));
}

#[test]
fn nested_short_circuit_splices_the_inner_join_block_into_the_chain() {
    // fn f(): int { return (1 && 1) || 7; }
    let context = compile_program(vec![function(
        "f",
        &[],
        Some("int"),
        vec![give_back(math(vec![
            math(vec![integer("1"), operator(Rule::LogicalAnd), integer("1")]),
            operator(Rule::LogicalOr),
            integer("7"),
        ]))],
    )])
    .unwrap();
    let f = find(&context.module, "_f");
    let (result, visited) = run(f);
    // the conjunction yields the value of its last operand, which decides
    // the disjunction
    assert_eq!(result, 1);
    assert!(!visited.contains(&2));
    assert!(every_block_is_finished(&context.module));
}

#[test]
fn instrumented_function_brackets_its_body_with_the_hooks() {
    // fn f(a: float) { float x = <learned>; if (a < 1) { return; } }
    let context = compile_program(vec![function(
        "f",
        &[("a", "float")],
        None,
        vec![
            declaration("float", "x", leaf(Rule::LearnedValue, "")),
            node(
                Rule::IfStatement,
                vec![
                    math(vec![token("a"), operator(Rule::LessThan), integer("1")]),
                    node(
                        Rule::IfStatementBody,
                        vec![node(Rule::VoidReturnStatement, vec![])],
                    ),
                ],
            ),
        ],
    )])
    .unwrap();
    let module = &context.module;
    let f = find(module, "_f");
    assert_eq!(calls_of(module, f, "airt_handle_function_call"), 1);
    // one return in the body of the if, one where the function falls through
    assert_eq!(calls_of(module, f, "airt_finish_function_call"), 2);
    assert_eq!(calls_of(module, f, "airt_predict_float"), 1);
    assert_eq!(calls_of(module, f, "airt_predict_int"), 0);
    assert_eq!(f.learned_values.len(), 1);
    for block in &f.blocks {
        let returns = matches!(
            block.terminal,
            TerminalInstruction::Return { .. } | TerminalInstruction::ReturnVoid
        );
        let finishes = match block.instructions.last() {
            Some(instruction) => match instruction.opcode {
                Opcode::Call(index) => {
                    module.function_table.functions[index].name == "airt_finish_function_call"
                },
                _ => false,
            },
            None => false,
        };
        assert_eq!(returns, finishes);
    }
    // the entry block packs the argument and calls the begin hook
    let entry: Vec<Opcode> = instructions(f, 0).iter().map(|i| i.opcode).collect();
    let handle = module
        .function_table
        .index_of(&FunctionKey::new("airt_handle_function_call"))
        .unwrap();
    assert_eq!(
        entry[..5],
        [
            Opcode::Allocate,
            Opcode::ElementAddress(0),
            Opcode::Store,
            Opcode::GlobalString(0),
            Opcode::Call(handle),
        ]
    );
    assert_eq!(module.string_table.strings[0], "_f");
    assert!(context.prediction_index.is_none());
    assert!(every_block_is_finished(module));
}

#[test]
fn function_without_parameters_is_never_instrumented() {
    // fn f() { int x = <learned>; }
    let context = compile_program(vec![function(
        "f",
        &[],
        None,
        vec![declaration("int", "x", leaf(Rule::LearnedValue, ""))],
    )])
    .unwrap();
    let module = &context.module;
    let f = find(module, "_f");
    assert_eq!(calls_of(module, f, "airt_handle_function_call"), 0);
    assert_eq!(calls_of(module, f, "airt_finish_function_call"), 0);
    assert_eq!(calls_of(module, f, "airt_predict_int"), 1);
    assert_eq!(f.learned_values.len(), 1);
    assert_eq!(terminal(f, 0), TerminalInstruction::ReturnVoid);
}

#[test]
fn function_without_learned_values_is_not_instrumented() {
    let context = compile_program(vec![function(
        "f",
        &[("a", "int")],
        Some("int"),
        vec![give_back(math(vec![token("a")]))],
    )])
    .unwrap();
    let module = &context.module;
    let f = find(module, "_f");
    assert_eq!(calls_of(module, f, "airt_handle_function_call"), 0);
    assert_eq!(calls_of(module, f, "airt_finish_function_call"), 0);
    assert_eq!(f.learned_values.len(), 0);
}

#[test]
fn for_loop_leads_from_the_body_to_the_increment() {
    // fn f() { for (int i = 0; i < 3; i = i + 1) { return; } }
    let context = compile_program(vec![function(
        "f",
        &[],
        None,
        vec![node(
            Rule::ForLoop,
            vec![
                declaration("int", "i", math(vec![integer("0")])),
                math(vec![token("i"), operator(Rule::LessThan), integer("3")]),
                assignment("i", math(vec![token("i"), operator(Rule::Addition), integer("1")])),
                node(Rule::FunctionBody, vec![node(Rule::VoidReturnStatement, vec![])]),
            ],
        )],
    )])
    .unwrap();
    let f = find(&context.module, "_f");
    let block = |index: usize| Block { parent: f.function, index };
    let names: Vec<&str> = f.blocks.iter().map(|block| block.name.as_str()).collect();
    assert_eq!(names, vec!["f", "for_condition", "for_body", "for_increment", "fcont"]);
    assert_eq!(terminal(f, 0), TerminalInstruction::Branch { target: block(1) });
    match terminal(f, 1) {
        TerminalInstruction::ConditionalBranch { target_if_true, target_if_false, .. } => {
            assert_eq!(target_if_true, block(2));
            assert_eq!(target_if_false, block(4));
        },
        other => panic!("the condition ends in {:?}", other),
    }
    // the body leads to the increment even though it has returned
    assert_eq!(terminal(f, 2), TerminalInstruction::Branch { target: block(3) });
    assert_eq!(terminal(f, 3), TerminalInstruction::Branch { target: block(1) });
    assert!(every_block_is_finished(&context.module));
}

#[test]
fn while_with_a_short_circuit_condition_branches_where_the_condition_ends() {
    // fn f() { while ((1 && 1) == 1) { } }
    let context = compile_program(vec![function(
        "f",
        &[],
        None,
        vec![node(
            Rule::WhileLoop,
            vec![
                math(vec![
                    math(vec![integer("1"), operator(Rule::LogicalAnd), integer("1")]),
                    operator(Rule::Equals),
                    integer("1"),
                ]),
                node(Rule::FunctionBody, vec![]),
            ],
        )],
    )])
    .unwrap();
    let f = find(&context.module, "_f");
    assert!(every_block_is_finished(&context.module));
    // the join block of the conjunction holds the branch of the loop
    let end = f.blocks.iter().position(|block| block.name == "end").unwrap();
    assert!(matches!(terminal(f, end), TerminalInstruction::ConditionalBranch { .. }));
}

#[test]
fn while_on_a_bare_conjunction_compares_it_with_zero() {
    // fn f() { while (1 && 1) { } }
    let context = compile_program(vec![function(
        "f",
        &[],
        None,
        vec![node(
            Rule::WhileLoop,
            vec![
                math(vec![integer("1"), operator(Rule::LogicalAnd), integer("1")]),
                node(Rule::FunctionBody, vec![]),
            ],
        )],
    )])
    .unwrap();
    let f = find(&context.module, "_f");
    assert!(every_block_is_finished(&context.module));
    let end = f.blocks.iter().position(|block| block.name == "end").unwrap();
    let joined = instructions(f, end);
    assert_eq!(joined.len(), 2);
    assert_eq!(joined[0].opcode, Opcode::Merge);
    assert_eq!(joined[1].opcode, Opcode::IntegerCompare(CompareOperation::NotEquals));
    assert_eq!(joined[1].type_enum, Type::Integer(0, 1));
    assert_eq!(
        joined[1].operands,
        vec![
            ValueRef::Instruction { block: Block { parent: f.function, index: end }, index: 0 },
            ValueRef::Integer { bits: 64, number: 0 },
        ]
    );
    match terminal(f, end) {
        TerminalInstruction::ConditionalBranch { condition, .. } => assert_eq!(
            condition,
            ValueRef::Instruction { block: Block { parent: f.function, index: end }, index: 1 }
        ),
        other => panic!("the condition ends in {:?}", other),
    }
}

#[test]
fn if_on_a_bare_conjunction_takes_the_body_where_both_hold() {
    // fn f(): int { if (1 && 2) { return 7; } return 9; }
    let program = |left: &str, right: &str| {
        compile_program(vec![function(
            "f",
            &[],
            Some("int"),
            vec![
                node(
                    Rule::IfStatement,
                    vec![
                        math(vec![integer(left), operator(Rule::LogicalAnd), integer(right)]),
                        node(Rule::IfStatementBody, vec![give_back(math(vec![integer("7")]))]),
                    ],
                ),
                give_back(math(vec![integer("9")])),
            ],
        )])
        .unwrap()
    };
    let context = program("1", "2");
    assert!(every_block_is_finished(&context.module));
    assert_eq!(run(find(&context.module, "_f")).0, 7);
    let context = program("1", "0");
    assert_eq!(run(find(&context.module, "_f")).0, 9);
    let context = program("0", "2");
    assert_eq!(run(find(&context.module, "_f")).0, 9);
}

#[test]
fn undefined_variable_is_reported_by_name() {
    let result = compile_program(vec![function(
        "f",
        &[],
        Some("int"),
        vec![give_back(math(vec![token("missing")]))],
    )]);
    match result {
        Err(MathError::UndefinedVariable(name)) => assert_eq!(name, "missing"),
        other => panic!("{:?}", other.map(|_| ())),
    }
}

#[test]
fn undefined_function_is_reported_by_its_transformed_name() {
    let result = compile_program(vec![function(
        "f",
        &[],
        None,
        vec![node(Rule::FunctionCall, vec![token("g")])],
    )]);
    match result {
        Err(MathError::UndefinedVariable(name)) => assert_eq!(name, "_g"),
        other => panic!("{:?}", other.map(|_| ())),
    }
}

#[test]
fn call_with_too_few_arguments_is_an_arity_mismatch() {
    let result = compile_program(vec![
        function("g", &[("a", "int")], None, vec![]),
        function("f", &[], None, vec![node(Rule::FunctionCall, vec![token("g")])]),
    ]);
    assert!(matches!(result, Err(MathError::ArityMismatch)));
}

#[test]
fn call_with_a_string_for_an_integer_is_incompatible() {
    let result = compile_program(vec![
        function("g", &[("a", "int")], None, vec![]),
        function(
            "f",
            &[("s", "string")],
            None,
            vec![node(
                Rule::FunctionCall,
                vec![token("g"), node(Rule::FunctionCallArgs, vec![math(vec![token("s")])])],
            )],
        ),
    ]);
    assert!(matches!(
        result,
        Err(MathError::IncompatibleTypes(Type::CString(0), Type::Integer(0, 64)))
    ));
}

#[test]
fn call_resolves_and_converts_its_arguments() {
    // fn g(a: int) {} fn f() { int x = 1; g(x); }
    let context = compile_program(vec![
        function("g", &[("a", "int")], None, vec![]),
        function(
            "f",
            &[],
            None,
            vec![
                declaration("int", "x", math(vec![integer("1")])),
                node(
                    Rule::FunctionCall,
                    vec![token("g"), node(Rule::FunctionCallArgs, vec![math(vec![token("x")])])],
                ),
            ],
        ),
    ])
    .unwrap();
    let f = find(&context.module, "_f");
    let g = find(&context.module, "_g");
    let body: Vec<Opcode> = instructions(f, 0).iter().map(|i| i.opcode).collect();
    assert_eq!(
        body,
        vec![
            Opcode::Allocate,
            Opcode::IntegerCast,
            Opcode::Store,
            Opcode::Load,
            Opcode::Call(g.function),
        ]
    );
    let call = &instructions(f, 0)[4];
    assert_eq!(
        call.operands,
        vec![ValueRef::Instruction { block: Block { parent: f.function, index: 0 }, index: 3 }]
    );
}

#[test]
fn bitwise_operation_on_a_float_is_unsupported() {
    let result = compile_program(vec![function(
        "f",
        &[("a", "float")],
        None,
        vec![give_back(math(vec![token("a"), operator(Rule::BitwiseAnd), token("a")]))],
    )]);
    assert!(matches!(result, Err(MathError::UnsupportedOperation)));
}

#[test]
fn node_of_a_kind_that_nothing_compiles_is_an_unknown_form() {
    let mut context = CompilationContext::new();
    let result = compile_pair(&mut context, &leaf(Rule::FunctionBody, ""));
    assert!(matches!(result, Err(MathError::UnknownSyntaxForm)));
    // a statement outside every function
    let result = compile_pair(&mut context, &node(Rule::VoidReturnStatement, vec![]));
    assert!(matches!(result, Err(MathError::UnknownSyntaxForm)));
    // the end of the input compiles to nothing
    let result = compile_pair(&mut context, &leaf(Rule::EndOfInput, ""));
    assert!(matches!(result, Ok(None)));
}

#[test]
fn function_inside_a_function_is_an_unknown_form() {
    let result = compile_program(vec![function(
        "f",
        &[],
        None,
        vec![function("g", &[], None, vec![])],
    )]);
    assert!(matches!(result, Err(MathError::UnknownSyntaxForm)));
}

#[test]
fn global_variable_is_seen_from_every_function() {
    // int total; fn f(): int { return total; }
    let context = compile_program(vec![
        node(Rule::VariableDeclaration, vec![leaf(Rule::TypeToken, "int"), token("total")]),
        function("f", &[], Some("int"), vec![give_back(math(vec![token("total")]))]),
    ])
    .unwrap();
    let module = &context.module;
    assert_eq!(module.globals.len(), 1);
    assert_eq!(module.globals[0].name, "total");
    assert_eq!(module.globals[0].type_enum, Type::Integer(0, 64));
    let f = find(module, "_f");
    // the return reads the variable through its address
    assert_eq!(instructions(f, 0)[0].opcode, Opcode::Load);
    assert_eq!(instructions(f, 0)[0].operands, vec![ValueRef::Global { index: 0 }]);
    let value: Value = module.get_variable(Block { parent: f.function, index: 0 }, "total").unwrap();
    assert_eq!(value.type_enum, Type::Integer(1, 64));
}

#[test]
fn while_body_that_returns_is_not_led_back() {
    // fn f() { while (1 < 2) { return; } }
    let context = compile_program(vec![function(
        "f",
        &[],
        None,
        vec![node(
            Rule::WhileLoop,
            vec![
                math(vec![integer("1"), operator(Rule::LessThan), integer("2")]),
                node(Rule::FunctionBody, vec![node(Rule::VoidReturnStatement, vec![])]),
            ],
        )],
    )])
    .unwrap();
    let f = find(&context.module, "_f");
    assert_eq!(terminal(f, 2), TerminalInstruction::ReturnVoid);
    assert!(every_block_is_finished(&context.module));
}

#[test]
fn condition_is_brought_to_one_bit() {
    // fn f(a: int) { if (a) { } }
    let context = compile_program(vec![function(
        "f",
        &[("a", "int")],
        None,
        vec![node(
            Rule::IfStatement,
            vec![math(vec![token("a")]), node(Rule::IfStatementBody, vec![])],
        )],
    )])
    .unwrap();
    let f = find(&context.module, "_f");
    assert_eq!(instructions(f, 0).len(), 1);
    assert_eq!(instructions(f, 0)[0].opcode, Opcode::IntegerCompare(CompareOperation::NotEquals));
    assert_eq!(
        instructions(f, 0)[0].operands,
        vec![
            ValueRef::Argument { function: f.function, index: 0 },
            ValueRef::Integer { bits: 64, number: 0 },
        ]
    );
    assert!(every_block_is_finished(&context.module));
    // a float is truncated to one bit
    let context = compile_program(vec![function(
        "f",
        &[("a", "float")],
        None,
        vec![node(
            Rule::IfStatement,
            vec![math(vec![token("a")]), node(Rule::IfStatementBody, vec![])],
        )],
    )])
    .unwrap();
    let f = find(&context.module, "_f");
    assert_eq!(instructions(f, 0)[0].opcode, Opcode::FloatToInteger);
    assert!(every_block_is_finished(&context.module));
}

#[test]
fn condition_without_a_value_is_unsupported() {
    // fn g() { } fn f() { if (g()) { } }
    let result = compile_program(vec![
        function("g", &[], None, vec![]),
        function(
            "f",
            &[],
            None,
            vec![node(
                Rule::IfStatement,
                vec![
                    node(Rule::FunctionCall, vec![token("g")]),
                    node(Rule::IfStatementBody, vec![]),
                ],
            )],
        ),
    ]);
    assert!(matches!(result, Err(MathError::UnsupportedOperation)));
}

#[test]
fn chain_with_an_arm_of_another_kind_is_an_unknown_form() {
    let result = compile_program(vec![function(
        "f",
        &[],
        None,
        vec![node(
            Rule::IfStatement,
            vec![
                math(vec![integer("1"), operator(Rule::LessThan), integer("2")]),
                node(Rule::IfStatementBody, vec![]),
                node(Rule::WhileLoop, vec![]),
            ],
        )],
    )]);
    assert!(matches!(result, Err(MathError::UnknownSyntaxForm)));
}

#[test]
fn else_if_with_a_short_circuit_condition_branches_where_the_condition_ends() {
    // fn f() { if (1 < 2) { } else if ((1 && 1) == 1) { } }
    let context = compile_program(vec![function(
        "f",
        &[],
        None,
        vec![node(
            Rule::IfStatement,
            vec![
                math(vec![integer("1"), operator(Rule::LessThan), integer("2")]),
                node(Rule::IfStatementBody, vec![]),
                node(
                    Rule::ElseIfStatement,
                    vec![
                        math(vec![
                            math(vec![integer("1"), operator(Rule::LogicalAnd), integer("1")]),
                            operator(Rule::Equals),
                            integer("1"),
                        ]),
                        node(Rule::IfStatementBody, vec![]),
                    ],
                ),
            ],
        )],
    )])
    .unwrap();
    let f = find(&context.module, "_f");
    let block = |index: usize| Block { parent: f.function, index };
    let entry = f.blocks.iter().position(|block| block.name == "else_if_condition").unwrap();
    let end = f.blocks.iter().position(|block| block.name == "end").unwrap();
    // the first arm leads into the condition of the second where it starts
    match terminal(f, 0) {
        TerminalInstruction::ConditionalBranch { target_if_false, .. } => {
            assert_eq!(target_if_false, block(entry));
        },
        other => panic!("{:?}", other),
    }
    // the second arm branches where its condition ends
    match terminal(f, end) {
        TerminalInstruction::ConditionalBranch { target_if_false, .. } => {
            assert_eq!(target_if_false, block(2));
        },
        other => panic!("{:?}", other),
    }
    assert!(every_block_is_finished(&context.module));
}

#[test]
fn struct_is_declared_allocated_and_stored_to() {
    // struct Point { x: float; y: int; }
    // fn f(p: Point) { p.y = 2; new Point; }
    let mut context = CompilationContext::new();
    context.module.create_extern_function("malloc", &vec![Type::Integer(0, 32)], Type::CString(0));
    let program = node(
        Rule::EndOfInput,
        vec![
            node(
                Rule::StructDeclaration,
                vec![
                    token("Point"),
                    node(Rule::StructField, vec![token("x"), leaf(Rule::TypeToken, "float")]),
                    node(Rule::StructField, vec![token("y"), leaf(Rule::TypeToken, "int")]),
                ],
            ),
            function(
                "f",
                &[("p", "Point")],
                None,
                vec![
                    node(
                        Rule::PropertyAssignment,
                        vec![
                            node(Rule::PropertyChain, vec![token("p"), token("y")]),
                            math(vec![integer("2")]),
                        ],
                    ),
                    node(Rule::NewStruct, vec![token("Point")]),
                ],
            ),
        ],
    );
    compile_pairs(&mut context, &program).unwrap();
    let module = &context.module;
    assert_eq!(module.type_table.structs.len(), 1);
    assert_eq!(module.type_table.structs[0].name, "Point");
    assert_eq!(module.type_table.structs[0].properties[1].name, "y");
    let f = find(module, "_f");
    assert_eq!(f.argument_types, vec![Type::Struct(1, 0)]);
    let malloc = module.function_table.index_of(&FunctionKey::new("malloc")).unwrap();
    let body: Vec<Opcode> = instructions(f, 0).iter().map(|i| i.opcode).collect();
    assert_eq!(body, vec![Opcode::FieldAddress(0, 1), Opcode::Store, Opcode::Call(malloc)]);
    assert_eq!(instructions(f, 0)[2].operands, vec![ValueRef::StructSize { index: 0 }]);
}

#[test]
fn struct_that_is_not_declared_cannot_be_allocated() {
    let result = compile_program(vec![function(
        "f",
        &[],
        None,
        vec![node(Rule::NewStruct, vec![token("Point")])],
    )]);
    match result {
        Err(MathError::UndefinedVariable(name)) => assert_eq!(name, "Point"),
        other => panic!("{:?}", other.map(|_| ())),
    }
}

#[test]
fn property_of_a_property_is_unsupported() {
    let result = compile_program(vec![function(
        "f",
        &[("p", "int")],
        None,
        vec![node(
            Rule::PropertyAssignment,
            vec![
                node(Rule::PropertyChain, vec![token("p"), token("q"), token("r")]),
                math(vec![integer("2")]),
            ],
        )],
    )]);
    assert!(matches!(result, Err(MathError::UnsupportedOperation)));
}

#[test]
fn variable_of_a_type_that_cannot_be_stored_is_unsupported() {
    let result = compile_program(vec![function(
        "f",
        &[],
        None,
        vec![declaration("string", "s", math(vec![integer("1")]))],
    )]);
    assert!(matches!(result, Err(MathError::UnsupportedOperation)));
}

#[test]
fn float_literals_and_variables() {
    // fn f(): float { float x = 1.5; x = x * 2; return x; }
    let context = compile_program(vec![function(
        "f",
        &[],
        Some("float"),
        vec![
            declaration("float", "x", math(vec![leaf(Rule::Float, "1.5")])),
            assignment(
                "x",
                math(vec![token("x"), operator(Rule::Multiplication), integer("2")]),
            ),
            give_back(math(vec![token("x")])),
        ],
    )])
    .unwrap();
    let module = &context.module;
    let f = find(module, "_f");
    assert_eq!(module.string_table.strings, vec!["1.5"]);
    let body: Vec<Opcode> = instructions(f, 0).iter().map(|i| i.opcode).collect();
    assert_eq!(
        body,
        vec![
            Opcode::Allocate,
            Opcode::Store,
            Opcode::Load,
            Opcode::IntegerToFloat,
            Opcode::FloatMultiply,
            Opcode::Store,
            Opcode::Load,
        ]
    );
    assert_eq!(instructions(f, 0)[1].operands[0], ValueRef::Float { literal: 0 });
    let entry = Block { parent: f.function, index: 0 };
    assert_eq!(
        terminal(f, 0),
        TerminalInstruction::Return { value: ValueRef::Instruction { block: entry, index: 6 } }
    );
}

#[test]
fn integer_literal_that_does_not_fit_is_an_unknown_form() {
    let result = compile_program(vec![function(
        "f",
        &[],
        Some("int"),
        vec![give_back(math(vec![integer("18446744073709551616")]))],
    )]);
    assert!(matches!(result, Err(MathError::UnknownSyntaxForm)));
}

#[test]
fn unary_operators_are_lowered_after_their_operand() {
    // fn f(a: int): int { return -~a; }
    let context = compile_program(vec![function(
        "f",
        &[("a", "int")],
        Some("int"),
        vec![give_back(math(vec![
            operator(Rule::Negative),
            operator(Rule::BitwiseNot),
            token("a"),
        ]))],
    )])
    .unwrap();
    let f = find(&context.module, "_f");
    let body: Vec<Opcode> = instructions(f, 0).iter().map(|i| i.opcode).collect();
    assert_eq!(body, vec![Opcode::Xor, Opcode::Subtract]);
}

#[test]
fn fresh_context_declares_the_functions_of_the_runtime() {
    let context = CompilationContext::new();
    let names: Vec<&str> = context
        .module
        .function_table
        .functions
        .iter()
        .map(|function| function.name.as_str())
        .collect();
    assert_eq!(
        names,
        vec![
            "_airt_print_float",
            "_airt_print_int",
            "_airt_random_float",
            "_airt_log_simulation",
            "airt_handle_function_call",
            "airt_finish_function_call",
            "airt_predict_float",
            "airt_predict_int",
        ]
    );
    assert_eq!(context.airt_handle_function_call.name, "airt_handle_function_call");
    assert_eq!(context.airt_finish_function_call.name, "airt_finish_function_call");
    assert_eq!(context.placeholder_evaluation_float.name, "airt_predict_float");
    assert_eq!(context.placeholder_evaluation_int.name, "airt_predict_int");
    let checks: Vec<bool> = context
        .module
        .function_table
        .functions
        .iter()
        .map(|function| function.check_arguments)
        .collect();
    assert_eq!(checks, vec![true, true, true, true, false, true, true, true]);
    assert!(context.current_block.is_none());
    assert!(context.prediction_index.is_none());
}

#[test]
fn program_calls_a_function_of_the_runtime() {
    // fn main() { airt_print_int(1 + 2); }
    let mut context = compile_program(vec![
        function(
            "main",
            &[],
            None,
            vec![node(
                Rule::FunctionCall,
                vec![
                    token("airt_print_int"),
                    node(
                        Rule::FunctionCallArgs,
                        vec![math(vec![integer("1"), operator(Rule::Addition), integer("2")])],
                    ),
                ],
            )],
        ),
        function("tick", &[], Some("float"), vec![give_back(math(vec![leaf(Rule::Float, "0.0")]))]),
    ])
    .unwrap();
    let main = find(&context.module, "_main");
    let body: Vec<Opcode> = instructions(main, 0).iter().map(|i| i.opcode).collect();
    assert_eq!(body, vec![Opcode::Add, Opcode::Call(1)]);
    context.module.write_bitcode().unwrap();
    assert!(every_block_is_finished(&context.module));
    assert_eq!(context.module.function_table.functions.last().unwrap().name, "main");
}

/// A small generator of numbers that gives the same numbers every time.
struct Numbers {
    state: u64,
}

impl Numbers {
    fn below(&mut self, bound: u64) -> u64 {
        self.state = self.state.wrapping_mul(6364136223846793005).wrapping_add(1442695040888963407);
        (self.state >> 33) % bound
    }
}

fn some_expression(numbers: &mut Numbers, depth: u64) -> Node {
    let operators = [
        Rule::Addition,
        Rule::Subtraction,
        Rule::Multiplication,
        Rule::LessThan,
        Rule::Equals,
        Rule::LogicalAnd,
        Rule::LogicalOr,
        Rule::BitwiseXor,
    ];
    let mut tokens = Vec::new();
    let operands = 1 + numbers.below(3);
    for position in 0..operands {
        if position > 0 {
            tokens.push(operator(operators[numbers.below(operators.len() as u64) as usize]));
        }
        if numbers.below(5) == 0 {
            tokens.push(operator(Rule::LogicalNot));
        }
        match numbers.below(if depth == 0 { 2 } else { 3 }) {
            0 => tokens.push(token("x")),
            1 => tokens.push(integer("3")),
            _ => tokens.push(some_expression(numbers, depth - 1)),
        }
    }
    math(tokens)
}

fn some_condition(numbers: &mut Numbers) -> Node {
    math(vec![some_expression(numbers, 1), operator(Rule::LessThan), integer("7")])
}

fn some_statements(numbers: &mut Numbers, depth: u64) -> Vec<Node> {
    let mut statements = Vec::new();
    for _ in 0..numbers.below(4) {
        let kinds = if depth == 0 { 3 } else { 6 };
        statements.push(match numbers.below(kinds) {
            0 => assignment("x", some_expression(numbers, 2)),
            1 => node(Rule::VoidReturnStatement, vec![]),
            2 => declaration("int", "x", some_expression(numbers, 1)),
            3 => node(
                Rule::WhileLoop,
                vec![
                    some_condition(numbers),
                    node(Rule::FunctionBody, some_statements(numbers, depth - 1)),
                ],
            ),
            4 => node(
                Rule::ForLoop,
                vec![
                    declaration("int", "i", math(vec![integer("0")])),
                    some_condition(numbers),
                    assignment("i", some_expression(numbers, 1)),
                    node(Rule::FunctionBody, some_statements(numbers, depth - 1)),
                ],
            ),
            _ => {
                let mut arms = vec![
                    some_condition(numbers),
                    node(Rule::IfStatementBody, some_statements(numbers, depth - 1)),
                ];
                for _ in 0..numbers.below(3) {
                    arms.push(node(
                        Rule::ElseIfStatement,
                        vec![
                            some_condition(numbers),
                            node(Rule::IfStatementBody, some_statements(numbers, depth - 1)),
                        ],
                    ));
                }
                if numbers.below(2) == 0 {
                    arms.push(node(
                        Rule::ElseStatement,
                        vec![node(Rule::IfStatementBody, some_statements(numbers, depth - 1))],
                    ));
                }
                node(Rule::IfStatement, arms)
            },
        });
    }
    statements
}

#[test]
fn every_program_that_compiles_leaves_no_block_unfinished() {
    let mut numbers = Numbers { state: 42 };
    let mut compiled = 0;
    for _ in 0..300 {
        let mut body = vec![declaration("int", "x", math(vec![integer("1")]))];
        body.extend(some_statements(&mut numbers, 3));
        let program = vec![function("f", &[("a", "int")], None, body)];
        match compile_program(program) {
            Ok(context) => {
                compiled += 1;
                assert!(every_block_is_finished(&context.module));
                assert!(context.current_block.is_none());
                // every block is written out once
                let f = find(&context.module, "_f");
                let mut layout = f.layout.clone();
                layout.sort();
                let expected: Vec<usize> = (0..f.blocks.len()).collect();
                assert_eq!(layout, expected);
                // every branch leads to a block of the function
                for block in &f.blocks {
                    let targets = match block.terminal {
                        TerminalInstruction::Branch { target } => vec![target],
                        TerminalInstruction::ConditionalBranch {
                            target_if_true,
                            target_if_false,
                            ..
                        } => vec![target_if_true, target_if_false],
                        _ => vec![],
                    };
                    for target in targets {
                        assert_eq!(target.parent, f.function);
                        assert!(target.index < f.blocks.len());
                    }
                }
            },
            Err(MathError::UnsupportedOperation) | Err(MathError::IncompatibleTypes(_, _)) => {},
            Err(other) => panic!("{:?}", other),
        }
    }
    assert!(compiled > 50);
}
