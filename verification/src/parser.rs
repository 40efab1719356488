//! The parse tree that the compiler reads, and the table of operators by
//! which expressions are bracketed.

use vstd::prelude::*;

verus! {

/// The kind of a node of the parse tree.
#[derive(Clone, Copy, Debug, PartialEq, Eq, Structural)]
pub enum Rule {
    EndOfInput,
    Function,
    FunctionDeclarationArgs,
    FunctionBody,
    FunctionCall,
    FunctionCallArgs,
    VariableDeclaration,
    VariableAssignment,
    PropertyAssignment,
    PropertyChain,
    IfStatement,
    IfStatementBody,
    ElseIfStatement,
    ElseStatement,
    WhileLoop,
    ForLoop,
    ReturnStatement,
    VoidReturnStatement,
    Math,
    LearnedValue,
    Token,
    TypeToken,
    Integer,
    Float,
    StructDeclaration,
    StructField,
    NewStruct,
    LogicalOr,
    LogicalAnd,
    BitwiseAnd,
    BitwiseOr,
    BitwiseXor,
    Equals,
    NotEquals,
    LessThanEqualTo,
    GreaterThanEqualTo,
    LessThan,
    GreaterThan,
    Addition,
    Subtraction,
    Multiplication,
    Division,
    Negative,
    LogicalNot,
    BitwiseNot,
}

/// A node of the parse tree: its kind, the source text it spans, and the
/// nodes below it in source order.
#[derive(Debug)]
pub struct Node {
    pub rule: Rule,
    pub text: String,
    pub children: Vec<Node>,
}

impl Node {
    pub fn new(rule: Rule, text: &str, children: Vec<Node>) -> (result: Node)
        ensures
            result.rule == rule,
            result.text@ == text@,
            result.children == children,
    {
        Node { rule, text: String::from_str(text), children }
    }
}

/// How tightly an infix operator binds, from 0 for the loosest. All infix
/// operators associate to the left. A rule that is no infix operator has no
/// precedence.
pub open spec fn precedence(rule: Rule) -> Option<nat> {
    match rule {
        Rule::LogicalOr => Some(0),
        Rule::LogicalAnd => Some(1),
        Rule::BitwiseAnd | Rule::BitwiseOr | Rule::BitwiseXor => Some(2),
        Rule::Equals | Rule::NotEquals => Some(3),
        Rule::LessThanEqualTo | Rule::GreaterThanEqualTo => Some(4),
        Rule::LessThan | Rule::GreaterThan => Some(5),
        Rule::Addition | Rule::Subtraction => Some(6),
        Rule::Multiplication | Rule::Division => Some(7),
        _ => None,
    }
}

/// Whether the rule is a prefix operator. They bind tighter than every infix
/// operator.
pub open spec fn is_prefix(rule: Rule) -> bool {
    rule == Rule::Negative || rule == Rule::LogicalNot || rule == Rule::BitwiseNot
}

/// Whether the rule is one of the two short-circuit operators.
pub open spec fn is_logic(rule: Rule) -> bool {
    rule == Rule::LogicalAnd || rule == Rule::LogicalOr
}

pub fn get_precedence(rule: Rule) -> (result: Option<u8>)
    ensures
        result is Some == precedence(rule) is Some,
        result matches Some(level) ==> precedence(rule) == Some(level as nat),
{
    match rule {
        Rule::LogicalOr => Some(0),
        Rule::LogicalAnd => Some(1),
        Rule::BitwiseAnd | Rule::BitwiseOr | Rule::BitwiseXor => Some(2),
        Rule::Equals | Rule::NotEquals => Some(3),
        Rule::LessThanEqualTo | Rule::GreaterThanEqualTo => Some(4),
        Rule::LessThan | Rule::GreaterThan => Some(5),
        Rule::Addition | Rule::Subtraction => Some(6),
        Rule::Multiplication | Rule::Division => Some(7),
        _ => None,
    }
}

pub fn is_prefix_operator(rule: Rule) -> (result: bool)
    ensures
        result == is_prefix(rule),
{
    match rule {
        Rule::Negative | Rule::LogicalNot | Rule::BitwiseNot => true,
        _ => false,
    }
}

pub fn is_logic_operator(rule: Rule) -> (result: bool)
    ensures
        result == is_logic(rule),
{
    match rule {
        Rule::LogicalAnd | Rule::LogicalOr => true,
        _ => false,
    }
}

/// The value of a sequence of decimal digits.
pub open spec fn digits_value(digits: Seq<char>) -> nat
    decreases digits.len(),
{
    if digits.len() == 0 {
        0
    } else {
        digits_value(digits.drop_last()) * 10 + (digits.last() as nat - '0' as nat) as nat
    }
}

pub open spec fn is_digit(c: char) -> bool {
    '0' <= c <= '9'
}

/// Whether the text is a decimal number: at least one character, and digits
/// only.
pub open spec fn is_number(text: Seq<char>) -> bool {
    text.len() > 0 && forall|i: int| 0 <= i < text.len() ==> is_digit(#[trigger] text[i])
}

/// A longer number is not smaller than the digits it starts with.
pub proof fn lemma_digits_value_grows(digits: Seq<char>, length: int)
    requires
        0 <= length <= digits.len(),
    ensures
        digits_value(digits.take(length)) <= digits_value(digits),
    decreases digits.len(),
{
    if length == digits.len() {
        assert(digits.take(length) =~= digits);
    } else {
        lemma_digits_value_grows(digits.drop_last(), length);
        assert(digits.drop_last().take(length) =~= digits.take(length));
    }
}

/// Reads a decimal number that fits into 64 bits.
pub fn parse_integer(text: &str) -> (result: Option<u64>)
    ensures
        result is Some == (is_number(text@) && digits_value(text@) <= u64::MAX),
        result matches Some(number) ==> number == digits_value(text@),
{
    let length = text.unicode_len();
    if length == 0 {
        return None;
    }
    let mut number: u64 = 0;
    let mut i: usize = 0;
    proof {
        assert(text@.take(0) =~= Seq::<char>::empty());
    }
    while i < length
        invariant
            i <= length,
            length == text@.len(),
            number == digits_value(text@.take(i as int)),
            forall|j: int| 0 <= j < i ==> is_digit(#[trigger] text@[j]),
        decreases length - i,
    {
        let c = text.get_char(i);
        if c < '0' || c > '9' {
            return None;
        }
        let digit = (c as u32 - '0' as u32) as u64;
        proof {
            assert(text@.take(i + 1).drop_last() =~= text@.take(i as int));
            assert(text@.take(i + 1).last() == c);
        }
        if number > (u64::MAX - digit) / 10 {
            proof {
                lemma_digits_value_grows(text@, i + 1);
            }
            return None;
        }
        number = number * 10 + digit;
        i += 1;
    }
    proof {
        assert(text@.take(i as int) =~= text@);
    }
    Some(number)
}

/// The digit that stands for a number below ten.
pub open spec fn digit_char(digit: nat) -> char {
    if digit == 0 {
        '0'
    } else if digit == 1 {
        '1'
    } else if digit == 2 {
        '2'
    } else if digit == 3 {
        '3'
    } else if digit == 4 {
        '4'
    } else if digit == 5 {
        '5'
    } else if digit == 6 {
        '6'
    } else if digit == 7 {
        '7'
    } else if digit == 8 {
        '8'
    } else {
        '9'
    }
}

/// The decimal digits of a number, without leading zeros.
pub open spec fn decimal_text(number: nat) -> Seq<char>
    decreases number,
{
    if number < 10 {
        seq![digit_char(number)]
    } else {
        decimal_text(number / 10).push(digit_char(number % 10))
    }
}

/// The digits of a number are a number again, and the same one.
pub proof fn lemma_decimal_text_is_read_back(number: nat)
    ensures
        is_number(decimal_text(number)),
        digits_value(decimal_text(number)) == number,
    decreases number,
{
    let text = decimal_text(number);
    if number < 10 {
        assert(text.drop_last() =~= Seq::<char>::empty());
        assert(digits_value(text.drop_last()) == 0);
    } else {
        lemma_decimal_text_is_read_back(number / 10);
        assert(text.drop_last() =~= decimal_text(number / 10));
        assert forall|i: int| 0 <= i < text.len() implies is_digit(#[trigger] text[i]) by {
            if i < text.len() - 1 {
                assert(text[i] == decimal_text(number / 10)[i]);
            }
        }
    }
}

fn digit_text(digit: u64) -> (result: &'static str)
    requires
        digit < 10,
    ensures
        result@ == seq![digit_char(digit as nat)],
{
    proof {
        reveal_strlit("0");
        reveal_strlit("1");
        reveal_strlit("2");
        reveal_strlit("3");
        reveal_strlit("4");
        reveal_strlit("5");
        reveal_strlit("6");
        reveal_strlit("7");
        reveal_strlit("8");
        reveal_strlit("9");
    }
    let result = if digit == 0 {
        "0"
    } else if digit == 1 {
        "1"
    } else if digit == 2 {
        "2"
    } else if digit == 3 {
        "3"
    } else if digit == 4 {
        "4"
    } else if digit == 5 {
        "5"
    } else if digit == 6 {
        "6"
    } else if digit == 7 {
        "7"
    } else if digit == 8 {
        "8"
    } else {
        "9"
    };
    assert(result@ =~= seq![digit_char(digit as nat)]);
    result
}

/// Writes a number in decimal digits.
pub fn format_integer(number: u64) -> (result: String)
    ensures
        result@ == decimal_text(number as nat),
    decreases number,
{
    if number < 10 {
        String::from_str(digit_text(number))
    } else {
        let text = format_integer(number / 10).concat(digit_text(number % 10));
        assert(text@ =~= decimal_text(number as nat));
        text
    }
}

} // verus!
