//! The compilation context: the module under construction and the cursor
//! that says where the next instruction goes.

use vstd::prelude::*;

use crate::block::{Block, InstructionView, Opcode, TerminalInstruction, Value};
use crate::compiler::control_flow::control_flow::IfStatement;
use crate::compiler::control_flow::return_statement::Return;
use crate::compiler::control_flow::void_return_statement::VoidReturn;
use crate::compiler::function::Function;
use crate::compiler::function_call::FunctionCall;
use crate::compiler::hooks::lemma_return_calls_finish_hook;
use crate::compiler::learned_value::LearnedValue;
use crate::compiler::loops::for_loop::ForLoop;
use crate::compiler::loops::while_loop::WhileLoop;
use crate::compiler::math::Math;
use crate::compiler::new_struct::NewStruct;
use crate::compiler::steps::{declared, lemma_declared_finished, lemma_lowered_nothing, lemma_lowered_twice, lowered};
use crate::compiler::struct_declaration::StructDeclaration;
use crate::compiler::variable_assignment::VariableAssignment;
use crate::compiler::variable_declaration::VariableDeclaration;
use crate::function_table::FunctionKey;
use crate::module::{all_real, lemma_settled_terminal, ordered, settled, Module, ModuleView};
use crate::parser::{Node, Rule};
use crate::types::{outcome, MathError, MathErrorView, Type};

verus! {

/// The state of one compilation run. One context serves one run.
#[derive(Debug)]
pub struct CompilationContext {
    /// The hook that is called where an instrumented function begins.
    pub airt_handle_function_call: FunctionKey,
    /// The hook that is called before an instrumented function returns.
    pub airt_finish_function_call: FunctionKey,
    /// The block that instructions are emitted into.
    pub current_block: Option<Block>,
    /// The function whose body is being compiled.
    pub current_function: Option<FunctionKey>,
    pub module: Module,
    /// The hook that predicts a float.
    pub placeholder_evaluation_float: FunctionKey,
    /// The hook that predicts an integer.
    pub placeholder_evaluation_int: FunctionKey,
    /// What the begin hook returned in the function being compiled, if that
    /// function is instrumented: every return hands it to the finish hook.
    pub prediction_index: Option<Value>,
}

pub struct ContextView {
    pub airt_handle_function_call: Seq<char>,
    pub airt_finish_function_call: Seq<char>,
    pub current_block: Option<Block>,
    pub current_function: Option<Seq<char>>,
    pub module: ModuleView,
    pub placeholder_evaluation_float: Seq<char>,
    pub placeholder_evaluation_int: Seq<char>,
    pub prediction_index: Option<Value>,
}

impl View for CompilationContext {
    type V = ContextView;

    open spec fn view(&self) -> ContextView {
        ContextView {
            airt_handle_function_call: self.airt_handle_function_call@,
            airt_finish_function_call: self.airt_finish_function_call@,
            current_block: self.current_block,
            current_function: match self.current_function {
                Some(key) => Some(key@),
                None => None,
            },
            module: self.module@,
            placeholder_evaluation_float: self.placeholder_evaluation_float@,
            placeholder_evaluation_int: self.placeholder_evaluation_int@,
            prediction_index: self.prediction_index,
        }
    }
}

impl ContextView {
    pub open spec fn with_module(self, module: ModuleView) -> ContextView {
        ContextView { module, ..self }
    }

    /// The context with the cursor at `block`.
    pub open spec fn at(self, block: Block) -> ContextView {
        ContextView { current_block: Some(block), ..self }
    }

    /// The cursor is at a block of the module, and every block's terminal is
    /// settled.
    pub open spec fn wf(self) -> bool {
        &&& self.current_block matches Some(block) ==> self.module.has_block(block)
        &&& self.module.wf()
    }
}

/// Whether two contexts are in the same function with the same prediction
/// pending.
pub open spec fn same_function(before: ContextView, after: ContextView) -> bool {
    &&& after.current_function == before.current_function
    &&& after.prediction_index == before.prediction_index
}

/// What every successful step of the compilation keeps. Inside a function
/// the cursor stays inside it, the terminals are `lowered`, and a pending
/// prediction stays pending; outside, the cursor stays outside and
/// functions are `declared`. Either way the context is well formed again.
pub open spec fn stepped(before: ContextView, after: ContextView) -> bool {
    &&& after.wf()
    &&& match before.current_block {
        Some(cursor) => after.current_block matches Some(exit) && lowered(
            before.module.terminals(),
            cursor,
            after.module.terminals(),
            exit,
        ) && same_function(before, after),
        None => after.current_block is None && declared(
            before.module.terminals(),
            after.module.terminals(),
        ),
    }
}

/// Two steps in a row keep what each of them keeps.
pub proof fn lemma_stepped_twice(first: ContextView, second: ContextView, third: ContextView)
    requires
        first.wf(),
        stepped(first, second),
        stepped(second, third),
    ensures
        stepped(first, third),
{
    match first.current_block {
        Some(cursor) => {
            lemma_lowered_twice(
                first.module.terminals(),
                cursor,
                second.module.terminals(),
                second.current_block.unwrap(),
                third.module.terminals(),
                third.current_block.unwrap(),
            );
        },
        None => {
            let a = first.module.terminals();
            let b = second.module.terminals();
            let c = third.module.terminals();
            assert forall|g: int| 0 <= g < a.len() implies c[g] == a[g] by {
                assert(b[g] == a[g]);
            }
            assert forall|g: int, i: int|
                a.len() <= g < c.len() && 0 <= i < c[g].len() implies (#[trigger] c[g][i]).is_real() by {
                if g < b.len() {
                    assert(c[g] == b[g]);
                    assert(b[g][i].is_real());
                }
            }
        },
    }
}

/// A step that changes nothing keeps everything.
pub proof fn lemma_stepped_nothing(context: ContextView)
    requires
        context.wf(),
    ensures
        stepped(context, context),
{
    match context.current_block {
        Some(cursor) => {
            lemma_lowered_nothing(context.module.terminals(), cursor);
        },
        None => {},
    }
}

/// A step that leaves the terminals and the cursor alone keeps everything.
pub proof fn lemma_stepped_same(before: ContextView, after: ContextView)
    requires
        before.wf(),
        after.module.wf(),
        after.module.terminals() == before.module.terminals(),
        after.current_block == before.current_block,
        same_function(before, after),
    ensures
        stepped(before, after),
{
    lemma_stepped_nothing(before);
}

/// The result of a node that yields a value.
pub open spec fn value_of(step: (ContextView, Result<Value, MathErrorView>)) -> (
    ContextView,
    Result<Option<Value>, MathErrorView>,
) {
    match step.1 {
        Ok(value) => (step.0, Ok(Some(value))),
        Err(error) => (step.0, Err(error)),
    }
}

/// The result of a node that yields no value.
pub open spec fn nothing_of(step: (ContextView, Result<(), MathErrorView>)) -> (
    ContextView,
    Result<Option<Value>, MathErrorView>,
) {
    match step.1 {
        Ok(_) => (step.0, Ok(None)),
        Err(error) => (step.0, Err(error)),
    }
}

/// What a step keeps that ends the block it leaves the cursor at: it is a
/// step inside a function, and that block has its real terminal.
pub open spec fn ended(before: ContextView, after: ContextView) -> bool {
    &&& stepped(before, after)
    &&& before.current_block is Some
    &&& after.current_block matches Some(exit) && after.module.terminal(exit).is_real()
}

impl ContextView {
    /// The context after a node of the parse tree was compiled, and the
    /// value of the node where it has one. A node of a kind that nothing
    /// compiles is an unknown form.
    pub open spec fn compile_pair(self, pair: Node) -> (
        ContextView,
        Result<Option<Value>, MathErrorView>,
    )
        decreases pair, 10nat, 0nat,
    {
        match pair.rule {
            Rule::Function => nothing_of(self.compile_function(pair)),
            Rule::Math => value_of(self.compile_math(pair)),
            Rule::ReturnStatement => nothing_of(self.compile_return(pair)),
            Rule::VoidReturnStatement => nothing_of(self.compile_void_return()),
            Rule::WhileLoop => nothing_of(self.compile_while(pair)),
            Rule::ForLoop => nothing_of(self.compile_for(pair)),
            Rule::IfStatement => match self.compile_if(pair) {
                (after, Ok(_)) => (after, Ok(None)),
                (after, Err(error)) => (after, Err(error)),
            },
            Rule::FunctionCall => value_of(self.compile_function_call(pair)),
            Rule::LearnedValue => value_of(self.compile_learned_value(Type::Integer(0, 64))),
            Rule::VariableAssignment | Rule::PropertyAssignment => value_of(
                self.compile_assignment(pair),
            ),
            Rule::VariableDeclaration => nothing_of(self.compile_variable_declaration(pair)),
            Rule::NewStruct => value_of(self.compile_new_struct(pair)),
            Rule::StructDeclaration => nothing_of(self.compile_struct_declaration(pair)),
            Rule::EndOfInput => (self, Ok(None)),
            _ => (self, Err(MathErrorView::UnknownSyntaxForm)),
        }
    }

    /// The context after a node was compiled that has to yield a value, and
    /// that value.
    pub open spec fn compile_value(self, pair: Node) -> (ContextView, Result<Value, MathErrorView>)
        decreases pair, 11nat, 0nat,
    {
        let (after, result) = self.compile_pair(pair);
        match result {
            Ok(Some(value)) => (after, Ok(value)),
            Ok(None) => (after, Err(MathErrorView::UnknownSyntaxForm)),
            Err(error) => (after, Err(error)),
        }
    }

    /// The context after a node was compiled whose value is wanted as a
    /// `target`, and that value. A learned value is predicted as a `target`;
    /// any other node yields what it yields.
    pub open spec fn compile_value_as(self, pair: Node, target: Type) -> (
        ContextView,
        Result<Value, MathErrorView>,
    )
        decreases pair, 12nat, 0nat,
    {
        if pair.rule == Rule::LearnedValue {
            self.compile_learned_value(target)
        } else {
            self.compile_value(pair)
        }
    }

    /// The context after the children of `parent` from position `from` on
    /// were compiled one after the other. The first that fails ends it.
    pub open spec fn compile_pairs(self, parent: Node, from: int) -> (
        ContextView,
        Result<(), MathErrorView>,
    )
        decreases parent, 1nat, parent.children@.len() - from,
    {
        if 0 <= from < parent.children@.len() {
            let (after, result) = self.compile_pair(parent.children@[from]);
            match result {
                Ok(_) => after.compile_pairs(parent, from + 1),
                Err(error) => (after, Err(error)),
            }
        } else {
            (self, Ok(()))
        }
    }

    /// The context after a node was compiled whose value decides a branch,
    /// and that value: it has to be a number.
    pub open spec fn compile_test(self, pair: Node) -> (ContextView, Result<Value, MathErrorView>)
        decreases pair, 12nat, 0nat,
    {
        let (after, value) = self.compile_value(pair);
        match value {
            Err(error) => (after, Err(error)),
            Ok(value) => if value.type_enum.resolved().decides() {
                (after, Ok(value))
            } else {
                (after, Err(MathErrorView::UnsupportedOperation))
            },
        }
    }

    /// The context after a condition was compiled from the cursor on and
    /// the block where that ends was made to branch on it.
    pub open spec fn compile_branch(self, pair: Node, if_true: Block, if_false: Block) -> (
        ContextView,
        Result<(), MathErrorView>,
    )
        decreases pair, 13nat, 0nat,
    {
        let (after, value) = self.compile_test(pair);
        match (value, after.current_block) {
            (Err(error), _) => (after, Err(error)),
            (Ok(_), None) => (after, Err(MathErrorView::UnknownSyntaxForm)),
            (Ok(value), Some(exit)) => (
                after.with_module(after.module.add_branch_if_true(exit, value, if_true, if_false)),
                Ok(()),
            ),
        }
    }

    /// The context after a branch to `target` ended the cursor's block:
    /// in any case where `always` holds, else only where the block still
    /// carries the placeholder.
    pub open spec fn close(self, target: Block, always: bool) -> (
        ContextView,
        Result<(), MathErrorView>,
    ) {
        match self.current_block {
            None => (self, Err(MathErrorView::UnknownSyntaxForm)),
            Some(exit) => (
                if always || self.module.terminal(exit) is Default {
                    self.with_module(
                        self.module.with_terminal(exit, TerminalInstruction::Branch { target }),
                    )
                } else {
                    self
                },
                Ok(()),
            ),
        }
    }

    /// The context after the children of `parent` were compiled from the
    /// cursor on and the block where that ends was closed.
    pub open spec fn compile_body(self, parent: Node, target: Block, always: bool) -> (
        ContextView,
        Result<(), MathErrorView>,
    )
        decreases parent, 2nat, 0nat,
    {
        let (after, result) = self.compile_pairs(parent, 0);
        match result {
            Err(error) => (after, Err(error)),
            Ok(_) => after.close(target, always),
        }
    }

    /// The context after one node was compiled from the cursor on and the
    /// block where that ends was made to branch to `target`.
    pub open spec fn compile_step(self, pair: Node, target: Block) -> (
        ContextView,
        Result<(), MathErrorView>,
    )
        decreases pair, 12nat, 0nat,
    {
        let (after, result) = self.compile_pair(pair);
        match result {
            Err(error) => (after, Err(error)),
            Ok(_) => after.close(target, true),
        }
    }

    /// The context after the finish hook was called, if a prediction is
    /// pending: the hook gets the name of the function being compiled, as a
    /// constant string, and the prediction index.
    pub open spec fn add_finish_function_call(self) -> (ContextView, Result<(), MathErrorView>) {
        match self.prediction_index {
            None => (self, Ok(())),
            Some(index) => match (self.current_block, self.current_function) {
                (Some(block), Some(name)) => match self.module.find_function(
                    self.airt_finish_function_call,
                ) {
                    None => (
                        self,
                        Err(MathErrorView::UndefinedVariable(self.airt_finish_function_call)),
                    ),
                    Some(hook) => {
                        let (named, text) = self.module.create_global_string(block, name);
                        match named.functions[hook].call_error(seq![text, index]) {
                            Some(error) => (self.with_module(named), Err(error)),
                            None => (
                                self.with_module(
                                    named.add_function_call(block, hook, seq![text, index]).0,
                                ),
                                Ok(()),
                            ),
                        }
                    },
                },
                _ => (self, Err(MathErrorView::UnknownSyntaxForm)),
            },
        }
    }
}

impl ContextView {
    /// The context that a compilation starts from: the module holds the
    /// declarations of the functions that the runtime provides and nothing
    /// else, and the cursor is outside every function.
    pub open spec fn initial() -> ContextView {
        ContextView {
            airt_handle_function_call: "airt_handle_function_call"@,
            airt_finish_function_call: "airt_finish_function_call"@,
            current_block: None,
            current_function: None,
            module: ModuleView::empty("main"@).declare_function(
                "_airt_print_float"@,
                seq![Type::Float(0)],
                Type::Void,
                true,
            ).declare_function("_airt_print_int"@, seq![Type::Integer(0, 64)], Type::Void, true)
                .declare_function(
                "_airt_random_float"@,
                seq![Type::Float(0), Type::Float(0)],
                Type::Float(0),
                true,
            ).declare_function(
                "_airt_log_simulation"@,
                seq![Type::Float(0), Type::Float(0)],
                Type::Void,
                true,
            ).declare_function(
                "airt_handle_function_call"@,
                seq![Type::CString(0), Type::Float(1)],
                Type::Integer(0, 64),
                false,
            ).declare_function(
                "airt_finish_function_call"@,
                seq![Type::CString(0), Type::Integer(0, 64)],
                Type::Void,
                true,
            ).declare_function(
                "airt_predict_float"@,
                seq![Type::CString(0), Type::Integer(0, 64), Type::Integer(0, 64)],
                Type::Float(0),
                true,
            ).declare_function(
                "airt_predict_int"@,
                seq![Type::CString(0), Type::Integer(0, 64), Type::Integer(0, 64)],
                Type::Integer(0, 64),
                true,
            ),
            placeholder_evaluation_float: "airt_predict_float"@,
            placeholder_evaluation_int: "airt_predict_int"@,
            prediction_index: None,
        }
    }
}

fn one_type(first: Type) -> (result: Vec<Type>)
    ensures
        result@ == seq![first],
{
    let mut result = Vec::new();
    result.push(first);
    assert(result@ =~= seq![first]);
    result
}

fn two_types(first: Type, second: Type) -> (result: Vec<Type>)
    ensures
        result@ == seq![first, second],
{
    let mut result = Vec::new();
    result.push(first);
    result.push(second);
    assert(result@ =~= seq![first, second]);
    result
}

fn three_types(first: Type, second: Type, third: Type) -> (result: Vec<Type>)
    ensures
        result@ == seq![first, second, third],
{
    let mut result = Vec::new();
    result.push(first);
    result.push(second);
    result.push(third);
    assert(result@ =~= seq![first, second, third]);
    result
}

impl CompilationContext {
    /// A context for one compilation. It declares the functions that the
    /// runtime provides. All of them are held to their parameters but the
    /// begin hook, which takes the packed arguments as they are.
    pub fn new() -> (result: Self)
        ensures
            result@ == ContextView::initial(),
            result@.wf(),
            all_real(result@.module.terminals()),
    {
        let mut module = Module::new("main");
        module.create_extern_function("_airt_print_float", &one_type(Type::Float(0)), Type::Void);
        module.create_extern_function(
            "_airt_print_int",
            &one_type(Type::Integer(0, 64)),
            Type::Void,
        );
        module.create_extern_function(
            "_airt_random_float",
            &two_types(Type::Float(0), Type::Float(0)),
            Type::Float(0),
        );
        module.create_extern_function(
            "_airt_log_simulation",
            &two_types(Type::Float(0), Type::Float(0)),
            Type::Void,
        );
        let airt_handle_function_call = module.declare_function(
            "airt_handle_function_call",
            &two_types(Type::CString(0), Type::Float(1)),
            Type::Integer(0, 64),
            false,
        );
        let airt_finish_function_call = module.create_extern_function(
            "airt_finish_function_call",
            &two_types(Type::CString(0), Type::Integer(0, 64)),
            Type::Void,
        );
        let placeholder_evaluation_float = module.create_extern_function(
            "airt_predict_float",
            &three_types(Type::CString(0), Type::Integer(0, 64), Type::Integer(0, 64)),
            Type::Float(0),
        );
        let placeholder_evaluation_int = module.create_extern_function(
            "airt_predict_int",
            &three_types(Type::CString(0), Type::Integer(0, 64), Type::Integer(0, 64)),
            Type::Integer(0, 64),
        );
        proof {
            let terminals = module@.terminals();
            assert(terminals.len() == 8);
            assert forall|g: int| 0 <= g < terminals.len() implies (#[trigger] terminals[g]).len()
                == 0 by {}
        }
        CompilationContext {
            airt_handle_function_call,
            airt_finish_function_call,
            current_block: None,
            current_function: None,
            module,
            placeholder_evaluation_float,
            placeholder_evaluation_int,
            prediction_index: None,
        }
    }
}

/// Where no prediction is pending, the finish hook is not called: nothing
/// is emitted.
pub proof fn lemma_nothing_pending(context: ContextView)
    requires
        context.prediction_index is None,
    ensures
        context.add_finish_function_call() == (context, Ok::<(), MathErrorView>(())),
        forall|callee: usize| #[trigger] context.calls_at_return(callee) == 0,
{
}

/// Where a prediction is pending, the finish hook is called exactly once:
/// the cursor's block gets the function's name as a constant string, then
/// one call of the hook with that string and the prediction index, and
/// nothing else.
pub proof fn lemma_finish_is_called_once(context: ContextView)
    requires
        context.current_block matches Some(block) && context.module.has_block(block),
        context.current_function is Some,
        context.prediction_index matches Some(index) && index.type_enum == Type::Integer(0, 64),
        context.module.find_function(context.airt_finish_function_call) matches Some(hook)
            && 0 <= hook < context.module.functions.len()
            && context.module.functions[hook].check_arguments
            && context.module.functions[hook].argument_types == seq![
            Type::CString(0),
            Type::Integer(0, 64),
        ],
    ensures
        ({
            let block = context.current_block.unwrap();
            let hook = context.module.find_function(context.airt_finish_function_call).unwrap();
            let index = context.prediction_index.unwrap();
            let (after, result) = context.add_finish_function_call();
            let text = context.module.next_value(block);
            &&& result is Ok
            &&& after.module.terminals() == context.module.terminals()
            &&& after.module.block(block).instructions == context.module.block(
                block,
            ).instructions.push(
                InstructionView::nullary(
                    Opcode::GlobalString(context.module.strings.len() as usize),
                    Type::CString(0),
                ),
            ).push(
                InstructionView {
                    opcode: Opcode::Call(hook as usize),
                    type_enum: context.module.functions[hook].return_type,
                    operands: seq![text, index.value],
                    blocks: seq![],
                },
            )
        }),
{
    let block = context.current_block.unwrap();
    let hook = context.module.find_function(context.airt_finish_function_call).unwrap();
    let index = context.prediction_index.unwrap();
    let name = context.current_function.unwrap();
    let (named, text) = context.module.create_global_string(block, name);
    let args = seq![text, index];
    let types = seq![Type::CString(0), Type::Integer(0, 64)];
    assert(named.functions[hook].argument_types == types);
    reveal_with_fuel(crate::call::argument_error, 3);
    assert(named.functions[hook].call_error(args) is None);
    reveal_with_fuel(ModuleView::resolve_arguments, 3);
    assert(args.drop_last() =~= seq![text]);
    assert(args.drop_last().drop_last() =~= Seq::<Value>::empty());
    assert(types.drop_last() =~= seq![Type::CString(0)]);
    assert(types.drop_last().drop_last() =~= Seq::<Type>::empty());
    let resolved = named.resolve_arguments(block, args, types);
    assert(resolved.0 == named);
    assert(resolved.1 =~= seq![text.value, index.value]);
    let called = named.add_function_call(block, hook, args).0;
    assert(called.block(block).instructions =~= named.block(block).instructions.push(
        InstructionView {
            opcode: Opcode::Call(hook as usize),
            type_enum: context.module.functions[hook].return_type,
            operands: seq![text.value, index.value],
            blocks: seq![],
        },
    ));
    crate::module::lemma_emit_keeps_terminals(
        context.module.with_string(name),
        block,
        InstructionView::nullary(
            Opcode::GlobalString(context.module.strings.len() as usize),
            Type::CString(0),
        ),
    );
    crate::module::lemma_emit_keeps_terminals(
        named,
        block,
        InstructionView {
            opcode: Opcode::Call(hook as usize),
            type_enum: context.module.functions[hook].return_type,
            operands: seq![text.value, index.value],
            blocks: seq![],
        },
    );
}

impl CompilationContext {
    /// Calls the finish hook if a prediction is pending. Every return goes
    /// through here.
    pub fn add_finish_function_call(&mut self) -> (result: Result<(), MathError>)
        requires
            old(self)@.wf(),
        ensures
            (final(self)@, outcome(result)) == old(self)@.add_finish_function_call(),
            final(self)@.module.terminals() == old(self)@.module.terminals(),
            final(self)@.module.wf(),
            // the hook is called once where a prediction is pending, and
            // nothing else is called
            result is Ok && old(self)@.current_block is Some ==> forall|callee: usize|
                #[trigger] final(self)@.module.calls(old(self)@.current_block.unwrap(), callee)
                    == old(self)@.module.calls(old(self)@.current_block.unwrap(), callee)
                    + old(self)@.calls_at_return(callee),
            final(self)@.current_block == old(self)@.current_block,
            same_function(old(self)@, final(self)@),
    {
        let declared = self.module.function_table.functions.len();
        proof {
            let before = old(self)@;
            assert(before.module.functions.len() == declared);
            assert forall|callee: usize|
                before.add_finish_function_call().1 is Ok
                    && before.current_block is Some implies #[trigger] before.add_finish_function_call().0.module.calls(
                before.current_block.unwrap(),
                callee,
            ) == before.module.calls(before.current_block.unwrap(), callee)
                + before.calls_at_return(callee) by {
                lemma_return_calls_finish_hook(before, callee);
            }
        }
        let index = match self.prediction_index {
            Some(index) => index,
            None => { return Ok(()); },
        };
        let block = match self.current_block {
            Some(block) => block,
            None => { return Err(MathError::UnknownSyntaxForm); },
        };
        let hook = match &self.current_function {
            None => { return Err(MathError::UnknownSyntaxForm); },
            Some(_) => match self.module.function_table.index_of(&self.airt_finish_function_call) {
                Some(hook) => hook,
                None => {
                    return Err(
                        MathError::UndefinedVariable(self.airt_finish_function_call.name.clone()),
                    );
                },
            },
        };
        let text = match &self.current_function {
            Some(key) => self.module.create_global_string(block, key.name.as_str()),
            None => { return Err(MathError::UnknownSyntaxForm); },
        };
        let mut args = Vec::new();
        args.push(text);
        args.push(index);
        proof {
            assert(args@ =~= seq![text, index]);
            assert(self@.module.functions.len() == self@.module.terminals().len());
            assert(old(self)@.module.functions.len() == old(self)@.module.terminals().len());
        }
        match self.module.check_call(hook, &args) {
            Ok(_) => {},
            Err(error) => { return Err(error); },
        }
        self.module.emit_call(block, hook, &args);
        Ok(())
    }
}

/// Compiles one node of the parse tree.
pub fn compile_pair(context: &mut CompilationContext, pair: &Node) -> (result: Result<
    Option<Value>,
    MathError,
>)
    requires
        old(context)@.wf(),
    ensures
        (final(context)@, outcome(result)) == old(context)@.compile_pair(*pair),
        result is Ok ==> stepped(old(context)@, final(context)@),
    decreases pair, 10nat, 0nat,
{
    match pair.rule {
        Rule::Function => match Function::compile(context, pair) {
            Ok(_) => Ok(None),
            Err(error) => Err(error),
        },
        Rule::Math => match Math::compile(context, pair) {
            Ok(value) => Ok(Some(value)),
            Err(error) => Err(error),
        },
        Rule::ReturnStatement => match Return::compile(context, pair) {
            Ok(_) => Ok(None),
            Err(error) => Err(error),
        },
        Rule::VoidReturnStatement => match VoidReturn::compile(context) {
            Ok(_) => Ok(None),
            Err(error) => Err(error),
        },
        Rule::WhileLoop => match WhileLoop::compile(context, pair) {
            Ok(_) => Ok(None),
            Err(error) => Err(error),
        },
        Rule::ForLoop => match ForLoop::compile(context, pair) {
            Ok(_) => Ok(None),
            Err(error) => Err(error),
        },
        Rule::IfStatement => match IfStatement::compile(context, pair) {
            Ok(_) => Ok(None),
            Err(error) => Err(error),
        },
        Rule::FunctionCall => match FunctionCall::compile(context, pair) {
            Ok(value) => Ok(Some(value)),
            Err(error) => Err(error),
        },
        Rule::LearnedValue => match LearnedValue::compile(context, Type::Integer(0, 64)) {
            Ok(value) => Ok(Some(value)),
            Err(error) => Err(error),
        },
        Rule::VariableAssignment | Rule::PropertyAssignment => match VariableAssignment::compile(
            context,
            pair,
        ) {
            Ok(value) => Ok(Some(value)),
            Err(error) => Err(error),
        },
        Rule::VariableDeclaration => match VariableDeclaration::compile(context, pair) {
            Ok(_) => Ok(None),
            Err(error) => Err(error),
        },
        Rule::NewStruct => match NewStruct::compile(context, pair) {
            Ok(value) => Ok(Some(value)),
            Err(error) => Err(error),
        },
        Rule::StructDeclaration => match StructDeclaration::compile(context, pair) {
            Ok(_) => Ok(None),
            Err(error) => Err(error),
        },
        Rule::EndOfInput => {
            proof {
                lemma_stepped_nothing(context@);
            }
            Ok(None)
        },
        _ => Err(MathError::UnknownSyntaxForm),
    }
}

/// Compiles a node that has to yield a value.
pub fn compile_value(context: &mut CompilationContext, pair: &Node) -> (result: Result<
    Value,
    MathError,
>)
    requires
        old(context)@.wf(),
    ensures
        (final(context)@, outcome(result)) == old(context)@.compile_value(*pair),
        result is Ok ==> stepped(old(context)@, final(context)@),
    decreases pair, 11nat, 0nat,
{
    match compile_pair(context, pair) {
        Ok(Some(value)) => Ok(value),
        Ok(None) => Err(MathError::UnknownSyntaxForm),
        Err(error) => Err(error),
    }
}

/// Compiles a node whose value is wanted as a `target`.
pub fn compile_value_as(context: &mut CompilationContext, pair: &Node, target: Type) -> (result:
    Result<Value, MathError>)
    requires
        old(context)@.wf(),
    ensures
        (final(context)@, outcome(result)) == old(context)@.compile_value_as(*pair, target),
        result is Ok ==> stepped(old(context)@, final(context)@),
    decreases pair, 12nat, 0nat,
{
    match pair.rule {
        Rule::LearnedValue => LearnedValue::compile(context, target),
        _ => compile_value(context, pair),
    }
}

/// Compiles the children of a node one after the other.
pub fn compile_pairs(context: &mut CompilationContext, parent: &Node) -> (result: Result<
    (),
    MathError,
>)
    requires
        old(context)@.wf(),
    ensures
        (final(context)@, outcome(result)) == old(context)@.compile_pairs(*parent, 0),
        result is Ok ==> stepped(old(context)@, final(context)@),
        result is Ok && old(context)@.current_block is None && all_real(
            old(context)@.module.terminals(),
        ) ==> all_real(final(context)@.module.terminals()),
    decreases parent, 1nat, parent.children@.len(),
{
    let ghost before = context@;
    let mut i: usize = 0;
    proof {
        lemma_stepped_nothing(before);
    }
    while i < parent.children.len()
        invariant
            i <= parent.children@.len(),
            before == old(context)@,
            before.wf(),
            context@.wf(),
            stepped(before, context@),
            before.compile_pairs(*parent, 0) == context@.compile_pairs(*parent, i as int),
        decreases parent.children@.len() - i,
    {
        let ghost now = context@;
        match compile_pair(context, &parent.children[i]) {
            Ok(_) => {},
            Err(error) => { return Err(error); },
        }
        proof {
            lemma_stepped_twice(before, now, context@);
        }
        i += 1;
    }
    proof {
        if before.current_block is None && all_real(before.module.terminals()) {
            lemma_declared_finished(before.module.terminals(), context@.module.terminals());
        }
    }
    Ok(())
}

/// Compiles a node whose value decides a branch.
pub fn compile_test(context: &mut CompilationContext, pair: &Node) -> (result: Result<
    Value,
    MathError,
>)
    requires
        old(context)@.wf(),
    ensures
        (final(context)@, outcome(result)) == old(context)@.compile_test(*pair),
        result is Ok ==> stepped(old(context)@, final(context)@),
        result matches Ok(value) ==> value.type_enum.resolved().decides(),
    decreases pair, 12nat, 0nat,
{
    let value = match compile_value(context, pair) {
        Ok(value) => value,
        Err(error) => { return Err(error); },
    };
    if !value.type_enum.to_resolved().can_decide() {
        return Err(MathError::UnsupportedOperation);
    }
    Ok(value)
}

/// Compiles a condition from the cursor on and ends the block where that
/// ends in a branch on it.
pub fn compile_branch(context: &mut CompilationContext, pair: &Node, if_true: Block, if_false: Block) -> (result:
    Result<(), MathError>)
    requires
        old(context)@.wf(),
    ensures
        (final(context)@, outcome(result)) == old(context)@.compile_branch(
            *pair,
            if_true,
            if_false,
        ),
        result is Ok ==> ended(old(context)@, final(context)@),
    decreases pair, 13nat, 0nat,
{
    let ghost before = context@;
    let value = match compile_test(context, pair) {
        Ok(value) => value,
        Err(error) => { return Err(error); },
    };
    let exit = match context.current_block {
        Some(exit) => exit,
        None => { return Err(MathError::UnknownSyntaxForm); },
    };
    let ghost now = context@;
    context.module.add_branch_if_true(exit, value, if_true, if_false);
    proof {
        lemma_closed(before, now, context@);
    }
    Ok(())
}

/// A step, then a real terminal for the block where the step ended.
pub proof fn lemma_closed(before: ContextView, now: ContextView, after: ContextView)
    requires
        before.wf(),
        stepped(before, now),
        ordered(after.module.functions),
        now.current_block matches Some(exit) && after.current_block == Some(exit)
            && after.module.terminal(exit).is_real() && after.module.terminals()
            == now.module.terminals_with(exit, after.module.terminal(exit)),
        same_function(now, after),
    ensures
        stepped(before, after),
        before.current_block is Some ==> ended(before, after),
{
    let exit = now.current_block.unwrap();
    let terminal = after.module.terminal(exit);
    lemma_settled_terminal(now.module.terminals(), exit, terminal);
    match before.current_block {
        Some(cursor) => {
            reveal(lowered);
        },
        None => {},
    }
}

impl CompilationContext {
    /// Ends the cursor's block in a branch to `target`, in any case where
    /// `always` holds, else only where it still carries the placeholder.
    pub fn close(&mut self, target: Block, always: bool) -> (result: Result<(), MathError>)
        requires
            old(self)@.wf(),
        ensures
            (final(self)@, outcome(result)) == old(self)@.close(target, always),
            result is Ok ==> ended(old(self)@, final(self)@),
    {
        let exit = match self.current_block {
            Some(exit) => exit,
            None => { return Err(MathError::UnknownSyntaxForm); },
        };
        if always || self.module.has_default_block_terminal(exit) {
            self.module.add_branch(exit, target);
            proof {
                lemma_stepped_nothing(old(self)@);
                lemma_closed(old(self)@, old(self)@, self@);
            }
        } else {
            proof {
                lemma_stepped_nothing(old(self)@);
                let terminals = self@.module.terminals();
                assert(settled(terminals[exit.parent as int][exit.index as int]));
            }
        }
        Ok(())
    }
}

/// Compiles the children of a node from the cursor on and closes the block
/// where that ends.
pub fn compile_body(context: &mut CompilationContext, parent: &Node, target: Block, always: bool) -> (result:
    Result<(), MathError>)
    requires
        old(context)@.wf(),
    ensures
        (final(context)@, outcome(result)) == old(context)@.compile_body(*parent, target, always),
        result is Ok ==> ended(old(context)@, final(context)@),
    decreases parent, 2nat, 0nat,
{
    let ghost before = context@;
    match compile_pairs(context, parent) {
        Ok(_) => {},
        Err(error) => { return Err(error); },
    }
    let ghost now = context@;
    let result = context.close(target, always);
    proof {
        if result is Ok {
            lemma_stepped_twice(before, now, context@);
        }
    }
    result
}

/// Compiles one node from the cursor on and ends the block where that ends
/// in a branch to `target`.
pub fn compile_step(context: &mut CompilationContext, pair: &Node, target: Block) -> (result:
    Result<(), MathError>)
    requires
        old(context)@.wf(),
    ensures
        (final(context)@, outcome(result)) == old(context)@.compile_step(*pair, target),
        result is Ok ==> ended(old(context)@, final(context)@),
    decreases pair, 12nat, 0nat,
{
    let ghost before = context@;
    match compile_pair(context, pair) {
        Ok(_) => {},
        Err(error) => { return Err(error); },
    }
    let ghost now = context@;
    let result = context.close(target, true);
    proof {
        if result is Ok {
            lemma_stepped_twice(before, now, context@);
        }
    }
    result
}

} // verus!
