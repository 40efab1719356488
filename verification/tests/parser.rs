use ai_dsl2_compiler::block::{Block, ValueRef};
use ai_dsl2_compiler::compiler::function::Function;
use ai_dsl2_compiler::compiler::math::{Math, MathIR};
use ai_dsl2_compiler::compiler::type_names::convert_type_name;
use ai_dsl2_compiler::compiler::variable_declaration::get_last_text;
use ai_dsl2_compiler::module::Module;
use ai_dsl2_compiler::object::Property;
use ai_dsl2_compiler::parser::{
    format_integer, get_precedence, is_logic_operator, is_prefix_operator, parse_integer, Node, Rule,
};
use ai_dsl2_compiler::types::{MathError, Type};

fn leaf(rule: Rule, text: &str) -> Node {
    Node::new(rule, text, vec![])
}

fn token(name: &str) -> Node {
    leaf(Rule::Token, name)
}

fn operator(rule: Rule) -> Node {
    leaf(rule, "")
}

fn math(tokens: Vec<Node>) -> Node {
    Node::new(Rule::Math, "", tokens)
}

/// The tree in brackets, each operator shown by its rule.
fn show(tree: &MathIR) -> String {
    match tree {
        MathIR::Constant { value, .. } => value.clone(),
        MathIR::Operation { lhs, operation, rhs } => {
            format!("({} {:?} {})", show(lhs), operation, show(rhs))
        },
        MathIR::UnaryOperation { operation, value } => format!("({:?} {})", operation, show(value)),
        MathIR::LogicOperation { operation, values } => {
            let operands: Vec<String> = values.iter().map(show).collect();
            format!("[{:?} {}]", operation, operands.join(" "))
        },
    }
}

fn parsed(tokens: Vec<Node>) -> String {
    show(&Math::parse(&math(tokens)).unwrap())
}

#[test]
fn multiplication_binds_tighter_than_addition() {
    assert_eq!(
        parsed(vec![
            token("a"),
            operator(Rule::Addition),
            token("b"),
            operator(Rule::Multiplication),
            token("c"),
        ]),
        "(a Addition (b Multiplication c))"
    );
    assert_eq!(
        parsed(vec![
            token("a"),
            operator(Rule::Multiplication),
            token("b"),
            operator(Rule::Addition),
            token("c"),
        ]),
        "((a Multiplication b) Addition c)"
    );
}

#[test]
fn operators_of_one_precedence_associate_to_the_left() {
    assert_eq!(
        parsed(vec![
            token("a"),
            operator(Rule::Subtraction),
            token("b"),
            operator(Rule::Addition),
            token("c"),
            operator(Rule::Subtraction),
            token("d"),
        ]),
        "(((a Subtraction b) Addition c) Subtraction d)"
    );
    assert_eq!(
        parsed(vec![
            token("a"),
            operator(Rule::Division),
            token("b"),
            operator(Rule::Division),
            token("c"),
        ]),
        "((a Division b) Division c)"
    );
}

#[test]
fn precedence_from_loosest_to_tightest() {
    // a || b && c | d == e <= f < g + h * i
    assert_eq!(
        parsed(vec![
            token("a"),
            operator(Rule::LogicalOr),
            token("b"),
            operator(Rule::LogicalAnd),
            token("c"),
            operator(Rule::BitwiseOr),
            token("d"),
            operator(Rule::Equals),
            token("e"),
            operator(Rule::LessThanEqualTo),
            token("f"),
            operator(Rule::LessThan),
            token("g"),
            operator(Rule::Addition),
            token("h"),
            operator(Rule::Multiplication),
            token("i"),
        ]),
        "[LogicalOr a [LogicalAnd b (c BitwiseOr (d Equals (e LessThanEqualTo (f LessThan (g Addition (h Multiplication i))))))]]"
    );
    let levels: Vec<Option<u8>> = [
        Rule::LogicalOr,
        Rule::LogicalAnd,
        Rule::BitwiseAnd,
        Rule::BitwiseOr,
        Rule::BitwiseXor,
        Rule::Equals,
        Rule::NotEquals,
        Rule::LessThanEqualTo,
        Rule::GreaterThanEqualTo,
        Rule::LessThan,
        Rule::GreaterThan,
        Rule::Addition,
        Rule::Subtraction,
        Rule::Multiplication,
        Rule::Division,
        Rule::Negative,
        Rule::Token,
    ]
    .iter()
    .map(|&rule| get_precedence(rule))
    .collect();
    assert_eq!(
        levels,
        vec![
            Some(0),
            Some(1),
            Some(2),
            Some(2),
            Some(2),
            Some(3),
            Some(3),
            Some(4),
            Some(4),
            Some(5),
            Some(5),
            Some(6),
            Some(6),
            Some(7),
            Some(7),
            None,
            None,
        ]
    );
}

#[test]
fn chains_of_one_logic_operator_are_flat() {
    assert_eq!(
        parsed(vec![
            token("a"),
            operator(Rule::LogicalAnd),
            token("b"),
            operator(Rule::LogicalAnd),
            token("c"),
        ]),
        "[LogicalAnd a b c]"
    );
    // two operators never share a chain
    assert_eq!(
        parsed(vec![
            token("a"),
            operator(Rule::LogicalAnd),
            token("b"),
            operator(Rule::LogicalOr),
            token("c"),
        ]),
        "[LogicalOr [LogicalAnd a b] c]"
    );
    assert_eq!(
        parsed(vec![
            token("a"),
            operator(Rule::LogicalOr),
            token("b"),
            operator(Rule::LogicalAnd),
            token("c"),
        ]),
        "[LogicalOr a [LogicalAnd b c]]"
    );
    // a chain in brackets on the left is extended, one on the right is not
    assert_eq!(
        parsed(vec![
            math(vec![token("a"), operator(Rule::LogicalAnd), token("b")]),
            operator(Rule::LogicalAnd),
            token("c"),
        ]),
        "[LogicalAnd a b c]"
    );
    assert_eq!(
        parsed(vec![
            token("a"),
            operator(Rule::LogicalAnd),
            math(vec![token("b"), operator(Rule::LogicalAnd), token("c")]),
        ]),
        "[LogicalAnd a [LogicalAnd b c]]"
    );
    assert!(is_logic_operator(Rule::LogicalAnd));
    assert!(is_logic_operator(Rule::LogicalOr));
    assert!(!is_logic_operator(Rule::BitwiseAnd));
}

#[test]
fn prefix_operators_bind_tighter_than_any_infix_operator() {
    assert_eq!(
        parsed(vec![
            operator(Rule::Negative),
            token("a"),
            operator(Rule::Multiplication),
            operator(Rule::LogicalNot),
            operator(Rule::BitwiseNot),
            token("b"),
        ]),
        "((Negative a) Multiplication (LogicalNot (BitwiseNot b)))"
    );
    assert!(is_prefix_operator(Rule::Negative));
    assert!(is_prefix_operator(Rule::LogicalNot));
    assert!(is_prefix_operator(Rule::BitwiseNot));
    assert!(!is_prefix_operator(Rule::Subtraction));
}

#[test]
fn brackets_bind_tightest() {
    assert_eq!(
        parsed(vec![
            math(vec![token("a"), operator(Rule::Addition), token("b")]),
            operator(Rule::Multiplication),
            leaf(Rule::Integer, "2"),
        ]),
        "((a Addition b) Multiplication 2)"
    );
    assert_eq!(parsed(vec![math(vec![math(vec![leaf(Rule::Float, "1.5")])])]), "1.5");
}

#[test]
fn constants_keep_the_kind_of_their_token() {
    match Math::parse(&math(vec![leaf(Rule::Float, "1.5")])).unwrap() {
        MathIR::Constant { kind, value } => {
            assert_eq!(kind, Rule::Float);
            assert_eq!(value, "1.5");
        },
        other => panic!("{:?}", other),
    }
    match Math::parse(&math(vec![leaf(Rule::Integer, "15")])).unwrap() {
        MathIR::Constant { kind, .. } => assert_eq!(kind, Rule::Integer),
        other => panic!("{:?}", other),
    }
}

#[test]
fn what_is_no_expression_is_an_unknown_form() {
    let malformed = vec![
        vec![],
        vec![operator(Rule::Addition)],
        vec![token("a"), operator(Rule::Addition)],
        vec![operator(Rule::Addition), token("a")],
        vec![token("a"), token("b")],
        vec![token("a"), operator(Rule::Negative)],
        vec![operator(Rule::Negative)],
        vec![token("a"), operator(Rule::Addition), operator(Rule::Multiplication), token("b")],
        vec![leaf(Rule::FunctionBody, "")],
        vec![math(vec![])],
    ];
    for tokens in malformed {
        assert!(matches!(Math::parse(&math(tokens)), Err(MathError::UnknownSyntaxForm)));
    }
}

#[test]
fn integers_are_read_in_decimal() {
    assert_eq!(parse_integer("0"), Some(0));
    assert_eq!(parse_integer("42"), Some(42));
    assert_eq!(parse_integer("007"), Some(7));
    assert_eq!(parse_integer("18446744073709551615"), Some(u64::MAX));
    assert_eq!(parse_integer("18446744073709551616"), None);
    assert_eq!(parse_integer("99999999999999999999999"), None);
    assert_eq!(parse_integer(""), None);
    assert_eq!(parse_integer("12a"), None);
    assert_eq!(parse_integer("+1"), None);
    assert_eq!(parse_integer("-1"), None);
    assert_eq!(parse_integer("1.5"), None);
    assert_eq!(parse_integer("١٢"), None);
}

#[test]
fn integers_are_written_as_they_are_read() {
    assert_eq!(format_integer(0), "0");
    assert_eq!(format_integer(7), "7");
    assert_eq!(format_integer(10), "10");
    assert_eq!(format_integer(1234567890), "1234567890");
    assert_eq!(format_integer(u64::MAX), "18446744073709551615");
    for number in [0u64, 9, 10, 99, 100, 12345, u64::MAX] {
        assert_eq!(parse_integer(&format_integer(number)), Some(number));
    }
}

#[test]
fn global_constants_are_named_by_their_value() {
    let mut module = Module::new("main");
    let block = Block { parent: 0, index: 0 };
    let integer = module.add_global_integer(block, 42);
    assert_eq!(integer.type_enum, Type::Integer(1, 64));
    assert_eq!(integer.value, ValueRef::Global { index: 0 });
    assert_eq!(module.globals[0].name, "c42");
    assert_eq!(module.globals[0].type_enum, Type::Integer(0, 64));
    assert_eq!(module.globals[0].initializer, Some(ValueRef::Integer { bits: 64, number: 42 }));
    let float = module.add_global_float(block, "2.5");
    assert_eq!(float.type_enum, Type::Float(1));
    assert_eq!(float.value, ValueRef::Global { index: 1 });
    assert_eq!(module.globals[1].name, "cf2.5");
    assert_eq!(module.globals[1].initializer, Some(ValueRef::Float { literal: 0 }));
    assert_eq!(module.string_table.strings, vec!["2.5"]);
    let variable = module.add_global_variable("x", Type::Float(0));
    assert_eq!(variable.value, ValueRef::Global { index: 2 });
    assert_eq!(module.globals[2].initializer, None);
}

#[test]
fn type_names_stand_for_types() {
    let mut module = Module::new("main");
    module.create_struct_type("Point", vec![Property { name: "x".to_string(), type_enum: Type::Float(0) }]);
    module.create_struct_type("int2", vec![]);
    assert!(matches!(convert_type_name(&module, "float"), Ok(Type::Float(0))));
    assert!(matches!(convert_type_name(&module, "int"), Ok(Type::Integer(0, 64))));
    assert!(matches!(convert_type_name(&module, "string"), Ok(Type::CString(0))));
    assert!(matches!(convert_type_name(&module, "Point"), Ok(Type::Struct(1, 0))));
    assert!(matches!(convert_type_name(&module, "int2"), Ok(Type::Struct(1, 1))));
    match convert_type_name(&module, "Line") {
        Err(MathError::UndefinedVariable(name)) => assert_eq!(name, "Line"),
        other => panic!("{:?}", other),
    }
}

fn declaration(children: Vec<Node>) -> Node {
    Node::new(Rule::Function, "", children)
}

#[test]
fn signature_is_read_from_the_children_before_the_body() {
    let module = Module::new("main");
    let pair = declaration(vec![
        token("add"),
        Node::new(
            Rule::FunctionDeclarationArgs,
            "",
            vec![
                token("a"),
                leaf(Rule::TypeToken, "int"),
                token("b"),
                leaf(Rule::TypeToken, "float"),
            ],
        ),
        leaf(Rule::TypeToken, "string"),
        Node::new(Rule::FunctionBody, "", vec![token("ignored"), leaf(Rule::TypeToken, "int")]),
    ]);
    let signature = Function::signature(&module, &pair).unwrap();
    assert_eq!(signature.name, "add");
    assert_eq!(signature.argument_names, vec!["a", "b"]);
    assert_eq!(signature.argument_types, vec![Type::Integer(0, 64), Type::Float(0)]);
    assert_eq!(signature.return_type, Type::CString(0));
    assert_eq!(get_last_text(&pair.children, Rule::Token), "add");
    assert_eq!(get_last_text(&pair.children, Rule::TypeToken), "string");
    assert_eq!(get_last_text(&pair.children, Rule::Integer), "");
}

#[test]
fn function_without_a_type_returns_nothing() {
    let module = Module::new("main");
    let pair = declaration(vec![token("f"), Node::new(Rule::FunctionBody, "", vec![])]);
    let signature = Function::signature(&module, &pair).unwrap();
    assert_eq!(signature.name, "f");
    assert!(signature.argument_names.is_empty());
    assert!(signature.argument_types.is_empty());
    assert_eq!(signature.return_type, Type::Void);
}

#[test]
fn declaration_without_a_body_is_an_unknown_form() {
    let module = Module::new("main");
    assert!(matches!(
        Function::signature(&module, &declaration(vec![])),
        Err(MathError::UnknownSyntaxForm)
    ));
    assert!(matches!(
        Function::signature(&module, &declaration(vec![token("f")])),
        Err(MathError::UnknownSyntaxForm)
    ));
    // a parameter without a type
    let pair = declaration(vec![
        token("f"),
        Node::new(Rule::FunctionDeclarationArgs, "", vec![token("a")]),
        Node::new(Rule::FunctionBody, "", vec![]),
    ]);
    assert!(matches!(Function::signature(&module, &pair), Err(MathError::UnknownSyntaxForm)));
    // a parameter of a type that is not declared
    let pair = declaration(vec![
        token("f"),
        Node::new(
            Rule::FunctionDeclarationArgs,
            "",
            vec![token("a"), leaf(Rule::TypeToken, "Line")],
        ),
        Node::new(Rule::FunctionBody, "", vec![]),
    ]);
    match Function::signature(&module, &pair) {
        Err(MathError::UndefinedVariable(name)) => assert_eq!(name, "Line"),
        other => panic!("{:?}", other.map(|signature| signature.name)),
    }
}

#[test]
fn learned_values_are_found_at_any_depth() {
    let body = |statements: Vec<Node>| Node::new(Rule::FunctionBody, "", statements);
    assert!(!Function::look_for_learned_values(&body(vec![])));
    assert!(!Function::look_for_learned_values(&body(vec![math(vec![token("a")])])));
    assert!(Function::look_for_learned_values(&body(vec![leaf(Rule::LearnedValue, "")])));
    assert!(Function::look_for_learned_values(&body(vec![
        math(vec![token("a")]),
        Node::new(
            Rule::WhileLoop,
            "",
            vec![math(vec![token("a")]), body(vec![Node::new(
                Rule::VariableDeclaration,
                "",
                vec![leaf(Rule::TypeToken, "int"), token("x"), leaf(Rule::LearnedValue, "")],
            )])],
        ),
    ])));
    // the node itself is not looked at, only what is below it
    assert!(!Function::look_for_learned_values(&leaf(Rule::LearnedValue, "")));
}
