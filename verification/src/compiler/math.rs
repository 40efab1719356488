//! Expressions: the tree that the operators' precedence gives to a sequence
//! of tokens, and its lowering into instructions.

use vstd::prelude::*;

use crate::block::{Block, CompareOperation, TerminalInstruction, Value};
use crate::compiler::compile::{same_function, CompilationContext, ContextView};
use crate::compiler::steps::{lemma_lowered_nothing, lemma_lowered_settled, lemma_lowered_twice, lowered};
use crate::logic::{LogicBlock, LogicBlockView, LogicOperation};
use crate::math::{immediate_integer, Arithmetic, Bitwise};
use crate::module::{all_settled, settled};
use crate::parser::{digits_value, get_precedence, is_logic, is_logic_operator, is_number, is_prefix, is_prefix_operator, parse_integer, precedence, Node, Rule};
use crate::types::{outcome, MathError, MathErrorView};

verus! {

/// An expression as a tree, built once before anything is emitted.
#[derive(Debug)]
#[allow(inconsistent_fields)]
pub enum MathIR {
    /// A literal or a name: the kind of the token, and its text.
    Constant { kind: Rule, value: String },
    /// A chain of one short-circuit operator over two or more operands.
    LogicOperation { operation: Rule, values: Vec<MathIR> },
    Operation { lhs: Box<MathIR>, operation: Rule, rhs: Box<MathIR> },
    UnaryOperation { operation: Rule, value: Box<MathIR> },
}

#[allow(inconsistent_fields)]
pub enum MathTree {
    Constant { kind: Rule, value: Seq<char> },
    LogicOperation { operation: Rule, values: Seq<MathTree> },
    Operation { lhs: Box<MathTree>, operation: Rule, rhs: Box<MathTree> },
    UnaryOperation { operation: Rule, value: Box<MathTree> },
}

impl MathIR {
    /// The tree with its texts and operand lists as sequences.
    pub open spec fn tree(self) -> MathTree
        decreases self,
    {
        match self {
            MathIR::Constant { kind, value } => MathTree::Constant { kind, value: value@ },
            MathIR::LogicOperation { operation, values } => MathTree::LogicOperation {
                operation,
                values: Seq::new(
                    values@.len(),
                    |i: int|
                        if 0 <= i < values@.len() {
                            values@[i].tree()
                        } else {
                            MathTree::Constant { kind: Rule::EndOfInput, value: seq![] }
                        },
                ),
            },
            MathIR::Operation { lhs, operation, rhs } => MathTree::Operation {
                lhs: Box::new(lhs.tree()),
                operation,
                rhs: Box::new(rhs.tree()),
            },
            MathIR::UnaryOperation { operation, value } => MathTree::UnaryOperation {
                operation,
                value: Box::new(value.tree()),
            },
        }
    }
}

impl View for MathIR {
    type V = MathTree;

    open spec fn view(&self) -> MathTree {
        self.tree()
    }
}

/// The operator at which the tokens from `lo` up to `hi` split into a left
/// and a right operand: of the infix operators among them the one that binds
/// loosest, and of several such the last, since they associate to the left.
pub open spec fn split_point(tokens: Seq<Node>, lo: int, hi: int) -> Option<int>
    decreases hi - lo,
{
    if hi <= lo {
        None
    } else {
        let before = split_point(tokens, lo, hi - 1);
        match precedence(tokens[hi - 1].rule) {
            None => before,
            Some(level) => match before {
                None => Some(hi - 1),
                Some(at) => if level <= precedence(tokens[at].rule).unwrap() {
                    Some(hi - 1)
                } else {
                    Some(at)
                },
            },
        }
    }
}

/// The tree of an infix operator on two operands. A short-circuit operator
/// whose left operand is a chain of the same operator extends that chain
/// instead of nesting it.
pub open spec fn combine(lhs: MathTree, operation: Rule, rhs: MathTree) -> MathTree {
    if is_logic(operation) {
        if lhs is LogicOperation && lhs->LogicOperation_operation == operation {
            MathTree::LogicOperation { operation, values: lhs->values.push(rhs) }
        } else {
            MathTree::LogicOperation { operation, values: seq![lhs, rhs] }
        }
    } else {
        MathTree::Operation { lhs: Box::new(lhs), operation, rhs: Box::new(rhs) }
    }
}

/// The tree of a single token that stands for a value: a nested expression,
/// or a literal or a name.
pub open spec fn parse_primary(token: Node) -> Option<MathTree>
    decreases token, 1nat, 0nat,
{
    match token.rule {
        Rule::Math => parse_expression(token, 0, token.children@.len() as int),
        Rule::Float | Rule::Integer | Rule::Token => Some(
            MathTree::Constant { kind: token.rule, value: token.text@ },
        ),
        _ => None,
    }
}

/// The tree of the children of `parent` from `lo` up to `hi`, or nothing
/// where they are no expression. An expression is operands with infix
/// operators between them; an operand is a value with any number of prefix
/// operators in front.
pub open spec fn parse_expression(parent: Node, lo: int, hi: int) -> Option<MathTree>
    decreases parent, 0nat, hi - lo,
{
    let tokens = parent.children@;
    if lo < 0 || hi > tokens.len() || lo >= hi {
        None
    } else {
        match split_point(tokens, lo, hi) {
            Some(at) => if lo <= at < hi {
                match (parse_expression(parent, lo, at), parse_expression(parent, at + 1, hi)) {
                    (Some(lhs), Some(rhs)) => Some(combine(lhs, tokens[at].rule, rhs)),
                    _ => None,
                }
            } else {
                None
            },
            None => if is_prefix(tokens[lo].rule) {
                match parse_expression(parent, lo + 1, hi) {
                    Some(value) => Some(
                        MathTree::UnaryOperation {
                            operation: tokens[lo].rule,
                            value: Box::new(value),
                        },
                    ),
                    None => None,
                }
            } else if hi == lo + 1 {
                parse_primary(tokens[lo])
            } else {
                None
            },
        }
    }
}

/// What a token says: its kind, and for a literal or a name its text.
pub open spec fn token_of(token: Node) -> (Rule, Seq<char>) {
    if token.rule == Rule::Float || token.rule == Rule::Integer || token.rule == Rule::Token {
        (token.rule, token.text@)
    } else {
        (token.rule, seq![])
    }
}

/// What the children of `parent` from `lo` up to `hi` say in their order,
/// with every nested expression replaced by what its children say.
pub open spec fn tokens_between(parent: Node, lo: int, hi: int) -> Seq<(Rule, Seq<char>)>
    decreases parent, hi - lo,
{
    let tokens = parent.children@;
    if lo < 0 || hi > tokens.len() || lo >= hi {
        seq![]
    } else if tokens[hi - 1].rule == Rule::Math {
        tokens_between(parent, lo, hi - 1) + tokens_between(
            tokens[hi - 1],
            0,
            tokens[hi - 1].children@.len() as int,
        )
    } else {
        tokens_between(parent, lo, hi - 1).push(token_of(tokens[hi - 1]))
    }
}

/// What a tree says when it is read from left to right: each operator of
/// two operands between them, each prefix operator in front of its operand.
pub open spec fn tokens_of(tree: MathTree) -> Seq<(Rule, Seq<char>)>
    decreases tree, 1nat,
{
    match tree {
        MathTree::Constant { kind, value } => seq![(kind, value)],
        MathTree::Operation { lhs, operation, rhs } => tokens_of(*lhs).push(
            (operation, seq![]),
        ) + tokens_of(*rhs),
        MathTree::UnaryOperation { operation, value } => seq![(operation, seq![])] + tokens_of(
            *value,
        ),
        MathTree::LogicOperation { operation, values } => chained_tokens(
            tree,
            values.len() as int,
        ),
    }
}

/// What the first `count` operands of the chain `tree` say, with the
/// chain's operator between them.
pub open spec fn chained_tokens(tree: MathTree, count: int) -> Seq<(Rule, Seq<char>)>
    decreases tree, 0nat, count,
{
    if tree is LogicOperation && 0 < count <= tree->values.len() {
        if count == 1 {
            tokens_of(tree->values[0])
        } else {
            chained_tokens(tree, count - 1).push((tree->LogicOperation_operation, seq![]))
                + tokens_of(tree->values[count - 1])
        }
    } else {
        seq![]
    }
}

/// The tokens of a chain depend on its operator and its operands only.
proof fn lemma_chained_tokens_of_operands(first: MathTree, second: MathTree, count: int)
    requires
        first is LogicOperation,
        second is LogicOperation,
        first->LogicOperation_operation == second->LogicOperation_operation,
        0 <= count <= first->values.len(),
        count <= second->values.len(),
        forall|i: int| 0 <= i < count ==> first->values[i] == second->values[i],
    ensures
        chained_tokens(first, count) == chained_tokens(second, count),
    decreases count,
{
    if count > 1 {
        lemma_chained_tokens_of_operands(first, second, count - 1);
    }
}

/// An operator between two operands is read between them, also where it
/// extends a chain.
proof fn lemma_combine_is_read_in_order(lhs: MathTree, operation: Rule, rhs: MathTree)
    requires
        lhs is LogicOperation ==> lhs->values.len() > 0,
    ensures
        tokens_of(combine(lhs, operation, rhs)) == tokens_of(lhs).push((operation, seq![]))
            + tokens_of(rhs),
{
    let tree = combine(lhs, operation, rhs);
    if is_logic(operation) {
        if lhs is LogicOperation && lhs->LogicOperation_operation == operation {
            let count = lhs->values.len() as int;
            assert(tree is LogicOperation);
            assert(tree->values == lhs->values.push(rhs));
            assert(tree->values.len() == count + 1);
            assert(tree->values[count] == rhs);
            lemma_chained_tokens_of_operands(tree, lhs, count);
            assert(tokens_of(lhs) == chained_tokens(lhs, count));
            assert(tokens_of(tree) == chained_tokens(tree, count + 1));
            assert(chained_tokens(tree, count + 1) == chained_tokens(tree, count).push(
                (operation, seq![]),
            ) + tokens_of(rhs));
        } else {
            assert(tree is LogicOperation);
            assert(tree->values == seq![lhs, rhs]);
            assert(tree->values[0] == lhs);
            assert(tree->values[1] == rhs);
            assert(chained_tokens(tree, 1) == tokens_of(lhs));
            assert(tokens_of(tree) == chained_tokens(tree, 2));
            assert(chained_tokens(tree, 2) == chained_tokens(tree, 1).push((operation, seq![]))
                + tokens_of(rhs));
        }
    } else {
        assert(tree == (MathTree::Operation {
            lhs: Box::new(lhs),
            operation,
            rhs: Box::new(rhs),
        }));
    }
}

/// The tokens of two ranges that meet are the tokens of the whole range.
proof fn lemma_tokens_between_split(parent: Node, lo: int, at: int, hi: int)
    requires
        0 <= lo <= at <= hi <= parent.children@.len(),
    ensures
        tokens_between(parent, lo, hi) == tokens_between(parent, lo, at) + tokens_between(
            parent,
            at,
            hi,
        ),
    decreases hi - at,
{
    if at == hi {
        assert(tokens_between(parent, at, hi) =~= seq![]);
        assert(tokens_between(parent, lo, at) + Seq::<(Rule, Seq<char>)>::empty()
            =~= tokens_between(parent, lo, at));
    } else {
        lemma_tokens_between_split(parent, lo, at, hi - 1);
        let tokens = parent.children@;
        let left = tokens_between(parent, lo, at);
        let middle = tokens_between(parent, at, hi - 1);
        if tokens[hi - 1].rule == Rule::Math {
            let nested = tokens_between(tokens[hi - 1], 0, tokens[hi - 1].children@.len() as int);
            assert((left + middle) + nested =~= left + (middle + nested));
        } else {
            assert((left + middle).push(token_of(tokens[hi - 1])) =~= left + middle.push(
                token_of(tokens[hi - 1]),
            ));
        }
    }
}

/// A chain that the parser made has operands.
proof fn lemma_parsed_chain_has_operands(parent: Node, lo: int, hi: int)
    ensures
        parse_expression(parent, lo, hi) is Some ==> (parse_expression(
            parent,
            lo,
            hi,
        ).unwrap() is LogicOperation ==> parse_expression(parent, lo, hi).unwrap()->values.len()
            > 0),
    decreases parent, hi - lo,
{
    let tokens = parent.children@;
    if !(lo < 0 || hi > tokens.len() || lo >= hi) {
        match split_point(tokens, lo, hi) {
            Some(at) => {
                if lo <= at < hi {
                    match (
                        parse_expression(parent, lo, at),
                        parse_expression(parent, at + 1, hi),
                    ) {
                        (Some(lhs), Some(rhs)) => {
                            let tree = combine(lhs, tokens[at].rule, rhs);
                            assert(parse_expression(parent, lo, hi) == Some(tree));
                            if tree is LogicOperation {
                                if lhs is LogicOperation && lhs->LogicOperation_operation
                                    == tokens[at].rule {
                                    assert(tree->values == lhs->values.push(rhs));
                                } else {
                                    assert(tree->values == seq![lhs, rhs]);
                                }
                            }
                        },
                        _ => {},
                    }
                }
            },
            None => {
                if is_prefix(tokens[lo].rule) {
                } else if hi == lo + 1 {
                    assert(parse_expression(parent, lo, hi) == parse_primary(tokens[lo]));
                    if tokens[lo].rule == Rule::Math {
                        lemma_parsed_chain_has_operands(
                            tokens[lo],
                            0,
                            tokens[lo].children@.len() as int,
                        );
                    }
                }
            },
        }
    }
}

/// The tree of an expression says what its tokens say, in the same order:
/// the brackets that precedence puts around the operands move no token.
pub proof fn lemma_parse_keeps_order(parent: Node, lo: int, hi: int)
    ensures
        parse_expression(parent, lo, hi) is Some ==> tokens_of(
            parse_expression(parent, lo, hi).unwrap(),
        ) == tokens_between(parent, lo, hi),
    decreases parent, hi - lo,
{
    let tokens = parent.children@;
    if !(lo < 0 || hi > tokens.len() || lo >= hi) {
        match split_point(tokens, lo, hi) {
            Some(at) => {
                lemma_split_point_is_loosest_and_last(tokens, lo, hi);
                lemma_parse_keeps_order(parent, lo, at);
                lemma_parse_keeps_order(parent, at + 1, hi);
                lemma_parsed_chain_has_operands(parent, lo, at);
                match (parse_expression(parent, lo, at), parse_expression(parent, at + 1, hi)) {
                    (Some(lhs), Some(rhs)) => {
                        assert(parse_expression(parent, lo, hi) == Some(
                            combine(lhs, tokens[at].rule, rhs),
                        ));
                        lemma_combine_is_read_in_order(lhs, tokens[at].rule, rhs);
                        lemma_tokens_between_split(parent, lo, at + 1, hi);
                        assert(tokens[at].rule != Rule::Math);
                        assert(token_of(tokens[at]) == (tokens[at].rule, Seq::<char>::empty()));
                        assert(tokens_between(parent, lo, at + 1) == tokens_between(
                            parent,
                            lo,
                            at,
                        ).push(token_of(tokens[at])));
                    },
                    _ => {},
                }
            },
            None => {
                if is_prefix(tokens[lo].rule) {
                    lemma_parse_keeps_order(parent, lo + 1, hi);
                    lemma_tokens_between_split(parent, lo, lo + 1, hi);
                    assert(tokens_between(parent, lo, lo) =~= seq![]);
                    assert(token_of(tokens[lo]) == (tokens[lo].rule, Seq::<char>::empty()));
                    assert(tokens_between(parent, lo, lo + 1) =~= seq![token_of(tokens[lo])]);
                    match parse_expression(parent, lo + 1, hi) {
                        Some(value) => {
                            let tree = MathTree::UnaryOperation {
                                operation: tokens[lo].rule,
                                value: Box::new(value),
                            };
                            assert(parse_expression(parent, lo, hi) == Some(tree));
                            assert(tokens_of(tree) == seq![(tokens[lo].rule, Seq::<char>::empty())]
                                + tokens_of(value));
                        },
                        None => {},
                    }
                } else if hi == lo + 1 {
                    assert(parse_expression(parent, lo, hi) == parse_primary(tokens[lo]));
                    assert(tokens_between(parent, lo, lo) =~= seq![]);
                    if tokens[lo].rule == Rule::Math {
                        lemma_parse_keeps_order(tokens[lo], 0, tokens[lo].children@.len() as int);
                        assert(tokens_between(parent, lo, hi) =~= tokens_between(
                            tokens[lo],
                            0,
                            tokens[lo].children@.len() as int,
                        ));
                    } else {
                        assert(tokens_between(parent, lo, hi) =~= seq![token_of(tokens[lo])]);
                    }
                }
            },
        }
    }
}

/// The split point is the operator that binds loosest, and of several such
/// the last: no operator of the range binds looser, and none behind it
/// binds as loose. A range has no split point only if it has no operator.
pub proof fn lemma_split_point_is_loosest_and_last(tokens: Seq<Node>, lo: int, hi: int)
    requires
        0 <= lo <= hi <= tokens.len(),
    ensures
        match split_point(tokens, lo, hi) {
            Some(at) => {
                &&& lo <= at < hi
                &&& precedence(tokens[at].rule) is Some
                &&& forall|other: int|
                    lo <= other < hi && precedence(#[trigger] tokens[other].rule) is Some ==> {
                        &&& precedence(tokens[at].rule).unwrap() <= precedence(
                            tokens[other].rule,
                        ).unwrap()
                        &&& other > at ==> precedence(tokens[at].rule).unwrap() < precedence(
                            tokens[other].rule,
                        ).unwrap()
                    }
            },
            None => forall|other: int|
                lo <= other < hi ==> precedence(#[trigger] tokens[other].rule) is None,
        },
    decreases hi - lo,
{
    if hi > lo {
        lemma_split_point_is_loosest_and_last(tokens, lo, hi - 1);
    }
}

/// Marks the expression type's namespace of functions.
pub struct Math;

impl Math {
    fn find_split(tokens: &Vec<Node>, lo: usize, hi: usize) -> (result: Option<usize>)
        requires
            lo <= hi <= tokens@.len(),
        ensures
            result is Some == split_point(tokens@, lo as int, hi as int) is Some,
            result matches Some(at) ==> split_point(tokens@, lo as int, hi as int) == Some(
                at as int,
            ) && lo <= at < hi,
    {
        let mut best: Option<(usize, u8)> = None;
        let mut i = lo;
        while i < hi
            invariant
                lo <= i <= hi <= tokens@.len(),
                best is Some == split_point(tokens@, lo as int, i as int) is Some,
                best matches Some((at, level)) ==> split_point(tokens@, lo as int, i as int)
                    == Some(at as int) && lo <= at < i && precedence(tokens@[at as int].rule)
                    == Some(level as nat),
            decreases hi - i,
        {
            match get_precedence(tokens[i].rule) {
                None => {},
                Some(level) => {
                    best = match best {
                        None => Some((i, level)),
                        Some((at, loosest)) => if level <= loosest {
                            Some((i, level))
                        } else {
                            Some((at, loosest))
                        },
                    };
                },
            }
            i += 1;
        }
        match best {
            Some((at, _)) => Some(at),
            None => None,
        }
    }

    fn combine(lhs: MathIR, operation: Rule, rhs: MathIR) -> (result: MathIR)
        ensures
            result@ == combine(lhs@, operation, rhs@),
    {
        if is_logic_operator(operation) {
            match lhs {
                MathIR::LogicOperation { operation: chained, mut values } => {
                    if chained == operation {
                        values.push(rhs);
                        let result = MathIR::LogicOperation { operation, values };
                        proof {
                            assert(result@->values =~= lhs@->values.push(rhs@));
                        }
                        result
                    } else {
                        let inner = MathIR::LogicOperation { operation: chained, values };
                        proof {
                            assert(inner@->values =~= lhs@->values);
                        }
                        let mut operands = Vec::new();
                        operands.push(inner);
                        operands.push(rhs);
                        let result = MathIR::LogicOperation { operation, values: operands };
                        proof {
                            assert(result@->values =~= seq![lhs@, rhs@]);
                        }
                        result
                    }
                },
                other => {
                    let mut operands = Vec::new();
                    operands.push(other);
                    operands.push(rhs);
                    let result = MathIR::LogicOperation { operation, values: operands };
                    proof {
                        assert(result@->values =~= seq![lhs@, rhs@]);
                    }
                    result
                },
            }
        } else {
            MathIR::Operation { lhs: Box::new(lhs), operation, rhs: Box::new(rhs) }
        }
    }

    fn parse_primary(token: &Node) -> (result: Result<MathIR, MathError>)
        ensures
            match result {
                Ok(tree) => parse_primary(*token) == Some(tree@),
                Err(error) => parse_primary(*token) is None && error is UnknownSyntaxForm,
            },
        decreases token, 1nat, 0nat,
    {
        match token.rule {
            Rule::Math => Self::parse_range(token, 0, token.children.len()),
            Rule::Float | Rule::Integer | Rule::Token => Ok(
                MathIR::Constant { kind: token.rule, value: token.text.clone() },
            ),
            _ => Err(MathError::UnknownSyntaxForm),
        }
    }

    fn parse_range(parent: &Node, lo: usize, hi: usize) -> (result: Result<MathIR, MathError>)
        requires
            lo <= hi <= parent.children@.len(),
        ensures
            match result {
                Ok(tree) => parse_expression(*parent, lo as int, hi as int) == Some(tree@),
                Err(error) => parse_expression(*parent, lo as int, hi as int) is None
                    && error is UnknownSyntaxForm,
            },
        decreases parent, 0nat, hi - lo,
    {
        if lo >= hi {
            return Err(MathError::UnknownSyntaxForm);
        }
        match Self::find_split(&parent.children, lo, hi) {
            Some(at) => {
                let lhs = match Self::parse_range(parent, lo, at) {
                    Ok(lhs) => lhs,
                    Err(error) => { return Err(error); },
                };
                let rhs = match Self::parse_range(parent, at + 1, hi) {
                    Ok(rhs) => rhs,
                    Err(error) => { return Err(error); },
                };
                Ok(Self::combine(lhs, parent.children[at].rule, rhs))
            },
            None => {
                let first = &parent.children[lo];
                if is_prefix_operator(first.rule) {
                    match Self::parse_range(parent, lo + 1, hi) {
                        Ok(value) => Ok(
                            MathIR::UnaryOperation {
                                operation: first.rule,
                                value: Box::new(value),
                            },
                        ),
                        Err(error) => Err(error),
                    }
                } else if hi == lo + 1 {
                    Self::parse_primary(first)
                } else {
                    Err(MathError::UnknownSyntaxForm)
                }
            },
        }
    }

    /// Brackets the children of an expression node by the precedence of the
    /// operators among them.
    pub fn parse(pair: &Node) -> (result: Result<MathIR, MathError>)
        ensures
            match result {
                Ok(tree) => parse_expression(*pair, 0, pair.children@.len() as int) == Some(
                    tree@,
                ),
                Err(error) => parse_expression(*pair, 0, pair.children@.len() as int) is None
                    && error is UnknownSyntaxForm,
            },
    {
        Self::parse_range(pair, 0, pair.children.len())
    }
}

/// The state of the terminals while the operands of a short-circuit chain
/// are lowered, from `from` on still to come: what was there `before` the
/// chain is kept but for the block the chain was entered from, which has
/// its branch; of the blocks made since, the steps still to come and the
/// join block carry the placeholder, and every other one a real terminal.
pub open spec fn chain_progress(
    before: Seq<Seq<TerminalInstruction>>,
    cursor: Block,
    now: Seq<Seq<TerminalInstruction>>,
    count: int,
    from: int,
) -> bool {
    let f = cursor.parent as int;
    let first = before[f].len() as int;
    &&& now.len() == before.len()
    &&& forall|g: int| 0 <= g < before.len() && g != f ==> now[g] == before[g]
    &&& now[f].len() >= first + count + 1
    &&& forall|i: int| 0 <= i < first && i != cursor.index ==> now[f][i] == before[f][i]
    &&& now[f][cursor.index as int].is_real()
    &&& forall|i: int|
        first <= i < now[f].len() ==> if first + from <= i <= first + count {
            (#[trigger] now[f][i]) is Default
        } else {
            now[f][i].is_real()
        }
}

impl ContextView {
    /// A literal becomes an immediate, read by the kind of its token; a name
    /// becomes the place where its variable is found.
    pub open spec fn lower_constant(self, kind: Rule, text: Seq<char>) -> (
        ContextView,
        Result<Value, MathErrorView>,
    ) {
        match self.current_block {
            None => (self, Err(MathErrorView::UnknownSyntaxForm)),
            Some(block) => match kind {
                Rule::Float => {
                    let (module, value) = self.module.create_immediate_float(text);
                    (self.with_module(module), Ok(value))
                },
                Rule::Integer => if is_number(text) && digits_value(text) <= u64::MAX {
                    (self, Ok(immediate_integer(digits_value(text) as u64)))
                } else {
                    (self, Err(MathErrorView::UnknownSyntaxForm))
                },
                Rule::Token => (self, self.module.get_variable(block, text)),
                _ => (self, Err(MathErrorView::UnknownSyntaxForm)),
            },
        }
    }

    /// The instruction of an infix operator on two lowered operands, in the
    /// block of the cursor.
    pub open spec fn lower_binary(self, operation: Rule, lhs: Value, rhs: Value) -> (
        ContextView,
        Result<Value, MathErrorView>,
    ) {
        match self.current_block {
            None => (self, Err(MathErrorView::UnknownSyntaxForm)),
            Some(block) => {
                let module = self.module;
                let (after, result) = match operation {
                    Rule::Addition => module.add_arithmetic(
                        block,
                        Arithmetic::Addition,
                        lhs,
                        rhs,
                    ),
                    Rule::Subtraction => module.add_arithmetic(
                        block,
                        Arithmetic::Subtraction,
                        lhs,
                        rhs,
                    ),
                    Rule::Multiplication => module.add_arithmetic(
                        block,
                        Arithmetic::Multiplication,
                        lhs,
                        rhs,
                    ),
                    Rule::Division => module.add_division(block, lhs, rhs),
                    Rule::BitwiseAnd => module.add_bitwise(block, Bitwise::And, lhs, rhs),
                    Rule::BitwiseOr => module.add_bitwise(block, Bitwise::Or, lhs, rhs),
                    Rule::BitwiseXor => module.add_bitwise(block, Bitwise::Xor, lhs, rhs),
                    Rule::Equals => module.add_compare(
                        block,
                        lhs,
                        rhs,
                        CompareOperation::Equals,
                    ),
                    Rule::NotEquals => module.add_compare(
                        block,
                        lhs,
                        rhs,
                        CompareOperation::NotEquals,
                    ),
                    Rule::GreaterThan => module.add_compare(
                        block,
                        lhs,
                        rhs,
                        CompareOperation::GreaterThan,
                    ),
                    Rule::GreaterThanEqualTo => module.add_compare(
                        block,
                        lhs,
                        rhs,
                        CompareOperation::GreaterThanEqualTo,
                    ),
                    Rule::LessThan => module.add_compare(
                        block,
                        lhs,
                        rhs,
                        CompareOperation::LessThan,
                    ),
                    Rule::LessThanEqualTo => module.add_compare(
                        block,
                        lhs,
                        rhs,
                        CompareOperation::LessThanEqualTo,
                    ),
                    _ => (module, Err(MathErrorView::UnknownSyntaxForm)),
                };
                (self.with_module(after), result)
            },
        }
    }

    /// The instructions of a prefix operator on a lowered operand.
    pub open spec fn lower_unary(self, operation: Rule, value: Value) -> (
        ContextView,
        Result<Value, MathErrorView>,
    ) {
        match self.current_block {
            None => (self, Err(MathErrorView::UnknownSyntaxForm)),
            Some(block) => {
                let module = self.module;
                let (after, result) = match operation {
                    Rule::BitwiseNot => module.add_bitwise_not(block, value),
                    Rule::LogicalNot => module.add_logical_not(block, value),
                    Rule::Negative => module.add_negate(block, value),
                    _ => (module, Err(MathErrorView::UnknownSyntaxForm)),
                };
                (self.with_module(after), result)
            },
        }
    }

    /// The context after an expression was lowered from the cursor on, and
    /// the value of the expression. Operands are lowered from left to right.
    /// A short-circuit chain makes one step block per operand and a join
    /// block, and leaves the cursor at the join block.
    pub open spec fn lower(self, tree: MathTree) -> (ContextView, Result<Value, MathErrorView>)
        decreases tree, 1nat, 0nat,
    {
        match tree {
            MathTree::Constant { kind, value } => self.lower_constant(kind, value),
            MathTree::Operation { lhs, operation, rhs } => {
                let (first, lhs) = self.lower(*lhs);
                match lhs {
                    Err(error) => (first, Err(error)),
                    Ok(lhs) => {
                        let (second, rhs) = first.lower(*rhs);
                        match rhs {
                            Err(error) => (second, Err(error)),
                            Ok(rhs) => second.lower_binary(operation, lhs, rhs),
                        }
                    },
                }
            },
            MathTree::UnaryOperation { operation, value } => {
                let (after, value) = self.lower(*value);
                match value {
                    Err(error) => (after, Err(error)),
                    Ok(value) => after.lower_unary(operation, value),
                }
            },
            MathTree::LogicOperation { operation, values } => match self.current_block {
                None => (self, Err(MathErrorView::UnknownSyntaxForm)),
                Some(block) => if values.len() == 0 {
                    (self, Err(MathErrorView::UnknownSyntaxForm))
                } else {
                    let kind = if operation == Rule::LogicalAnd {
                        LogicOperation::And
                    } else {
                        LogicOperation::Or
                    };
                    let logic = self.module.new_logic_block(
                        block.parent as int,
                        kind,
                        values.len(),
                    );
                    let entered = self.with_module(
                        self.module.with_logic_blocks(
                            block.parent as int,
                            kind,
                            values.len(),
                        ).with_terminal(
                            block,
                            TerminalInstruction::Branch { target: logic.blocks[0] },
                        ),
                    );
                    Self::finish_chain(entered.lower_operands(tree, logic, 0))
                },
            },
        }
    }

    /// The end of a short-circuit chain whose operands are lowered: the
    /// join block gets its merge, and the cursor is left there.
    pub open spec fn finish_chain(stepped: (ContextView, Result<LogicBlockView, MathErrorView>)) -> (
        ContextView,
        Result<Value, MathErrorView>,
    ) {
        match stepped.1 {
            Err(error) => (stepped.0, Err(error)),
            Ok(logic) => {
                let (module, value) = stepped.0.module.commit_logic_block(logic);
                (stepped.0.with_module(module).at(logic.end), Ok(value))
            },
        }
    }

    /// One operand of a short-circuit chain: it is lowered from the current
    /// step block on; the block where its lowering ends takes the step's
    /// place in the chain; there the operand is compared and the step ends.
    pub open spec fn lower_operand(self, operand: MathTree, logic: LogicBlockView) -> (
        ContextView,
        Result<LogicBlockView, MathErrorView>,
    )
        decreases operand, 2nat, 0nat,
    {
        let (after, value) = self.at(logic.current()).lower(operand);
        match value {
            Err(error) => (after, Err(error)),
            Ok(value) => match after.current_block {
                None => (after, Err(MathErrorView::UnknownSyntaxForm)),
                Some(exit) => {
                    let (module, logic) = after.module.add_logic(logic.with_current(exit), value);
                    (after.with_module(module), logic)
                },
            },
        }
    }

    /// The operands of the chain `tree` from position `from` on, one after
    /// the other.
    pub open spec fn lower_operands(self, tree: MathTree, logic: LogicBlockView, from: int) -> (
        ContextView,
        Result<LogicBlockView, MathErrorView>,
    )
        decreases tree, 0nat, (if tree is LogicOperation {
            tree->values.len() - from
        } else {
            0
        }),
    {
        if tree is LogicOperation && 0 <= from < tree->values.len() {
            let (after, logic) = self.lower_operand(tree->values[from], logic);
            match logic {
                Err(error) => (after, Err(error)),
                Ok(logic) => after.lower_operands(tree, logic, from + 1),
            }
        } else {
            (self, Ok(logic))
        }
    }
}

impl Math {
    fn constant(context: &mut CompilationContext, kind: Rule, text: &String) -> (result: Result<
        Value,
        MathError,
    >)
        ensures
            same_function(old(context)@, final(context)@),
            (final(context)@, outcome(result)) == old(context)@.lower_constant(kind, text@),
            final(context)@.module.terminals() == old(context)@.module.terminals(),
            old(context)@.module.wf() ==> final(context)@.module.wf(),
            final(context)@.current_block == old(context)@.current_block,
            result is Ok ==> old(context)@.current_block is Some,
    {
        let block = match context.current_block {
            Some(block) => block,
            None => { return Err(MathError::UnknownSyntaxForm); },
        };
        match kind {
            Rule::Float => Ok(context.module.create_immediate_float(text.as_str())),
            Rule::Integer => match parse_integer(text.as_str()) {
                Some(number) => Ok(context.module.create_immediate_integer(number)),
                None => Err(MathError::UnknownSyntaxForm),
            },
            Rule::Token => context.module.get_variable(block, text.as_str()),
            _ => Err(MathError::UnknownSyntaxForm),
        }
    }

    fn binary(context: &mut CompilationContext, operation: Rule, lhs: Value, rhs: Value) -> (result:
        Result<Value, MathError>)
        requires
            old(context)@.wf(),
        ensures
            same_function(old(context)@, final(context)@),
            (final(context)@, outcome(result)) == old(context)@.lower_binary(operation, lhs, rhs),
            final(context)@.module.terminals() == old(context)@.module.terminals(),
            old(context)@.module.wf() ==> final(context)@.module.wf(),
            final(context)@.current_block == old(context)@.current_block,
            result is Ok ==> old(context)@.current_block is Some,
    {
        let block = match context.current_block {
            Some(block) => block,
            None => { return Err(MathError::UnknownSyntaxForm); },
        };
        match operation {
            Rule::Addition => context.module.add_addition(block, lhs, rhs),
            Rule::Subtraction => context.module.add_subtraction(block, lhs, rhs),
            Rule::Multiplication => context.module.add_multiplication(block, lhs, rhs),
            Rule::Division => context.module.add_division(block, lhs, rhs),
            Rule::BitwiseAnd => context.module.add_bitwise_and(block, lhs, rhs),
            Rule::BitwiseOr => context.module.add_bitwise_or(block, lhs, rhs),
            Rule::BitwiseXor => context.module.add_bitwise_xor(block, lhs, rhs),
            Rule::Equals => context.module.add_equals(block, lhs, rhs),
            Rule::NotEquals => context.module.add_not_equals(block, lhs, rhs),
            Rule::GreaterThan => context.module.add_greater_than(block, lhs, rhs),
            Rule::GreaterThanEqualTo => context.module.add_greater_than_equal_to(block, lhs, rhs),
            Rule::LessThan => context.module.add_less_than(block, lhs, rhs),
            Rule::LessThanEqualTo => context.module.add_less_than_equal_to(block, lhs, rhs),
            _ => Err(MathError::UnknownSyntaxForm),
        }
    }

    fn unary(context: &mut CompilationContext, operation: Rule, value: Value) -> (result: Result<
        Value,
        MathError,
    >)
        requires
            old(context)@.wf(),
        ensures
            same_function(old(context)@, final(context)@),
            (final(context)@, outcome(result)) == old(context)@.lower_unary(operation, value),
            final(context)@.module.terminals() == old(context)@.module.terminals(),
            old(context)@.module.wf() ==> final(context)@.module.wf(),
            final(context)@.current_block == old(context)@.current_block,
            result is Ok ==> old(context)@.current_block is Some,
    {
        let block = match context.current_block {
            Some(block) => block,
            None => { return Err(MathError::UnknownSyntaxForm); },
        };
        match operation {
            Rule::BitwiseNot => context.module.add_bitwise_not(block, value),
            Rule::LogicalNot => context.module.add_logical_not(block, value),
            Rule::Negative => context.module.add_negate(block, value),
            _ => Err(MathError::UnknownSyntaxForm),
        }
    }

    /// Lowers an expression tree from the cursor on.
    pub fn preorder(context: &mut CompilationContext, node: &MathIR) -> (result: Result<
        Value,
        MathError,
    >)
        requires
            old(context)@.wf(),
        ensures
            same_function(old(context)@, final(context)@),
            (final(context)@, outcome(result)) == old(context)@.lower(node@),
            result is Ok ==> final(context)@.wf() && old(context)@.current_block is Some
                && final(context)@.current_block is Some && lowered(
                old(context)@.module.terminals(),
                old(context)@.current_block.unwrap(),
                final(context)@.module.terminals(),
                final(context)@.current_block.unwrap(),
            ),
        decreases node, 1nat, 0nat,
    {
        let ghost before = context@;
        match node {
            MathIR::Constant { kind, value } => {
                let result = Self::constant(context, *kind, value);
                proof {
                    if result is Ok {
                        lemma_lowered_nothing(
                            before.module.terminals(),
                            before.current_block.unwrap(),
                        );
                    }
                }
                result
            },
            MathIR::Operation { lhs, operation, rhs } => {
                let lhs = match Self::preorder(context, lhs) {
                    Ok(lhs) => lhs,
                    Err(error) => { return Err(error); },
                };
                let ghost first = context@;
                let rhs = match Self::preorder(context, rhs) {
                    Ok(rhs) => rhs,
                    Err(error) => { return Err(error); },
                };
                let result = Self::binary(context, *operation, lhs, rhs);
                proof {
                    lemma_lowered_twice(
                        before.module.terminals(),
                        before.current_block.unwrap(),
                        first.module.terminals(),
                        first.current_block.unwrap(),
                        context@.module.terminals(),
                        context@.current_block.unwrap(),
                    );
                }
                result
            },
            MathIR::UnaryOperation { operation, value } => {
                let value = match Self::preorder(context, value) {
                    Ok(value) => value,
                    Err(error) => { return Err(error); },
                };
                Self::unary(context, *operation, value)
            },
            MathIR::LogicOperation { operation, values } => {
                proof {
                    assert(node@ is LogicOperation);
                    assert(node@->values =~= Math::operands(values@));
                }
                Self::chain(context, *operation, values)
            },
        }
    }

    /// The trees of a list of operands.
    pub open spec fn operands(values: Seq<MathIR>) -> Seq<MathTree> {
        Seq::new(
            values.len(),
            |i: int|
                if 0 <= i < values.len() {
                    values[i].tree()
                } else {
                    MathTree::Constant { kind: Rule::EndOfInput, value: seq![] }
                },
        )
    }

    fn chain(context: &mut CompilationContext, operation: Rule, values: &Vec<MathIR>) -> (result:
        Result<Value, MathError>)
        requires
            old(context)@.wf(),
        ensures
            same_function(old(context)@, final(context)@),
            (final(context)@, outcome(result)) == old(context)@.lower(
                MathTree::LogicOperation { operation, values: Self::operands(values@) },
            ),
            result is Ok ==> final(context)@.wf() && old(context)@.current_block is Some
                && final(context)@.current_block is Some && lowered(
                old(context)@.module.terminals(),
                old(context)@.current_block.unwrap(),
                final(context)@.module.terminals(),
                final(context)@.current_block.unwrap(),
            ),
        decreases values, 3nat, 0nat,
    {
        let ghost before = context@;
        let block = match context.current_block {
            Some(block) => block,
            None => { return Err(MathError::UnknownSyntaxForm); },
        };
        if values.len() == 0 {
            return Err(MathError::UnknownSyntaxForm);
        }
        let kind = if operation == Rule::LogicalAnd {
            LogicOperation::And
        } else {
            LogicOperation::Or
        };
        let ghost tree = MathTree::LogicOperation { operation, values: Self::operands(values@) };
        let ghost count = values@.len() as int;
        let ghost f = block.parent as int;
        let ghost first = before.module.terminals()[f].len() as int;
        let mut logic = context.module.new_logic_block(block, kind, values.len());
        let ghost started = logic@;
        context.module.add_branch(block, logic.get_first_block());
        let ghost entered = context@;
        proof {
            assert(tree->values.len() == count);
            assert forall|j: int| 0 <= j < count implies tree->values[j]
                == values@[j]@ by {}
            assert(first == before.module.functions[f].blocks.len());
            assert(chain_progress(
                before.module.terminals(),
                block,
                entered.module.terminals(),
                count,
                0,
            ));
            assert(all_settled(entered.module.terminals()));
        }
        let mut i: usize = 0;
        while i < values.len()
            invariant
                i <= values@.len(),
                count == values@.len(),
                tree is LogicOperation,
                tree->values.len() == count,
                forall|j: int| 0 <= j < count ==> tree->values[j] == values@[j]@,
                f == block.parent as int,
                0 <= f < before.module.terminals().len(),
                block.index < before.module.terminals()[f].len(),
                first == before.module.terminals()[f].len(),
                first + count <= usize::MAX,
                logic@.block_index == i,
                logic@.blocks.len() == count,
                logic@.end == (Block {
                    parent: block.parent,
                    index: (first + count) as usize,
                }),
                logic@.end == started.end,
                logic@.operation == started.operation,
                forall|j: int|
                    i <= j < count ==> logic@.blocks[j] == (Block {
                        parent: block.parent,
                        index: (first + j) as usize,
                    }),
                context@.module.wf(),
                chain_progress(
                    before.module.terminals(),
                    block,
                    context@.module.terminals(),
                    count,
                    i as int,
                ),
                before == old(context)@,
                same_function(before, context@),
                tree == (MathTree::LogicOperation { operation, values: Self::operands(values@) }),
                before.lower(tree) == ContextView::finish_chain(
                    context@.lower_operands(tree, logic@, i as int),
                ),
            decreases values@.len() - i,
        {
            let ghost now = context@.module.terminals();
            let ghost step = logic@.current();
            proof {
                assert(now[f][first + i] is Default);
            }
            logic = match Self::lower_operand(context, &values[i], logic) {
                Ok(logic) => logic,
                Err(error) => { return Err(error); },
            };
            proof {
                reveal(lowered);
                let after = context@.module.terminals();
                let exit = logic@.blocks[i as int];
                assert(lowered(now, step, after, exit));
                assert(after[f][exit.index as int].is_real());
                assert forall|k: int| first <= k < after[f].len() implies if first + (i
                    + 1) <= k <= first + count {
                    (#[trigger] after[f][k]) is Default
                } else {
                    after[f][k].is_real()
                } by {
                    if k < now[f].len() {
                        if k != first + i {
                            assert(after[f][k] == now[f][k]);
                            assert(k != exit.index);
                        }
                    }
                }
                assert forall|k: int| 0 <= k < first && k != block.index implies after[f][k]
                    == before.module.terminals()[f][k] by {
                    assert(after[f][k] == now[f][k]);
                }
                assert(after[f][block.index as int] == now[f][block.index as int]);
                assert forall|g: int| 0 <= g < after.len() && g != f implies after[g]
                    == before.module.terminals()[g] by {
                    assert(after[g] == now[g]);
                }
            }
            i += 1;
        }
        proof {
            reveal(lowered);
            let after = context@.module.terminals();
            assert(lowered(before.module.terminals(), block, after, logic@.end));
        }
        let end = logic.end;
        let committed = context.module.commit_logic_block(logic);
        context.current_block = Some(end);
        match committed {
            Ok((value, _)) => Ok(value),
            Err(error) => Err(error),
        }

    }

    fn lower_operand(
        context: &mut CompilationContext,
        operand: &MathIR,
        logic: LogicBlock,
    ) -> (result: Result<LogicBlock, MathError>)
        requires
            logic@.has_current(),
            old(context)@.module.has_block(logic@.current()),
            old(context)@.module.wf(),
        ensures
            same_function(old(context)@, final(context)@),
            final(context)@ == old(context)@.lower_operand(operand@, logic@).0,
            match result {
                Ok(moved) => old(context)@.lower_operand(operand@, logic@).1 == Ok::<
                    LogicBlockView,
                    MathErrorView,
                >(moved@),
                Err(error) => old(context)@.lower_operand(operand@, logic@).1 == Err::<
                    LogicBlockView,
                    MathErrorView,
                >(error@),
            },
            result matches Ok(moved) ==> {
                &&& moved@.block_index == logic@.block_index + 1
                &&& moved@.blocks.len() == logic@.blocks.len()
                &&& moved@.end == logic@.end
                &&& forall|j: int|
                    0 <= j < logic@.blocks.len() && j != logic@.block_index ==> moved@.blocks[j]
                        == logic@.blocks[j]
                &&& final(context)@.module.wf()
                &&& lowered(
                    old(context)@.module.terminals(),
                    logic@.current(),
                    final(context)@.module.terminals(),
                    moved@.blocks[logic@.block_index as int],
                )
                &&& final(context)@.module.terminal(
                    moved@.blocks[logic@.block_index as int],
                ).is_real()
            },
        decreases operand, 2nat, 0nat,
    {
        let mut logic = logic;
        let ghost before = context@;
        let length = logic.blocks.len();
        let step = logic.get_current_block();
        context.current_block = Some(step);
        let value = match Self::preorder(context, operand) {
            Ok(value) => value,
            Err(error) => { return Err(error); },
        };
        let exit = match context.current_block {
            Some(exit) => exit,
            None => { return Err(MathError::UnknownSyntaxForm); },
        };
        let ghost between = context@.module.terminals();
        let index = logic.block_index;
        logic.blocks[index] = exit;
        let ghost spliced = logic@;
        let result = context.module.add_logic(logic, value);
        proof {
            reveal(lowered);
            if result is Ok {
                let moved = result->Ok_0;
                assert(moved@.blocks == spliced.blocks);
                assert(moved@.blocks[index as int] == exit);
                let after = context@.module.terminals();
                let f = exit.parent as int;
                assert(lowered(before.module.terminals(), step, between, exit));
                assert(after == between.update(
                    f,
                    between[f].update(exit.index as int, after[f][exit.index as int]),
                ));
                assert(after[f][exit.index as int].is_real());
                lemma_lowered_settled(before.module.terminals(), step, between, exit);
                assert(all_settled(after)) by {
                    assert forall|g: int, i: int|
                        0 <= g < after.len() && 0 <= i < after[g].len() implies settled(
                        #[trigger] after[g][i],
                    ) by {
                        if g == f && i == exit.index {
                        } else {
                            assert(after[g][i] == between[g][i]);
                        }
                    }
                }
                assert(lowered(before.module.terminals(), step, after, exit));
            }
        }
        result
    }

    /// Compiles an expression node: its children are bracketed into a tree,
    /// and the tree is lowered from the cursor on.
    pub fn compile(context: &mut CompilationContext, pair: &Node) -> (result: Result<
        Value,
        MathError,
    >)
        requires
            old(context)@.wf(),
        ensures
            same_function(old(context)@, final(context)@),
            (final(context)@, outcome(result)) == old(context)@.compile_math(*pair),
            result is Ok ==> final(context)@.wf() && old(context)@.current_block is Some
                && final(context)@.current_block is Some && lowered(
                old(context)@.module.terminals(),
                old(context)@.current_block.unwrap(),
                final(context)@.module.terminals(),
                final(context)@.current_block.unwrap(),
            ),
    {
        let tree = match Self::parse(pair) {
            Ok(tree) => tree,
            Err(error) => { return Err(error); },
        };
        Self::preorder(context, &tree)
    }
}

impl ContextView {
    /// The context after an expression node was compiled, and its value.
    /// Children that are no expression are an unknown form.
    pub open spec fn compile_math(self, pair: Node) -> (ContextView, Result<Value, MathErrorView>) {
        match parse_expression(pair, 0, pair.children@.len() as int) {
            None => (self, Err(MathErrorView::UnknownSyntaxForm)),
            Some(tree) => self.lower(tree),
        }
    }
}

} // verus!
