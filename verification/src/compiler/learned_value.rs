//! Learned values: placeholders whose value a prediction supplies when the
//! program runs.

use vstd::prelude::*;

use crate::block::Value;
use crate::compiler::compile::{lemma_stepped_nothing, stepped, CompilationContext, ContextView};
use crate::compiler::hooks::lemma_learned_value_calls_predictor;
use crate::math::immediate_integer;
use crate::types::{outcome, MathError, MathErrorView, Type};

verus! {

pub struct LearnedValue;

impl ContextView {
    /// The hook that predicts a value of type `target`.
    pub open spec fn predictor(self, target: Type) -> Seq<char> {
        if target is Float {
            self.placeholder_evaluation_float
        } else {
            self.placeholder_evaluation_int
        }
    }

    /// The context after a learned value was lowered: a call of the
    /// predictor for its type, with the name of the function being compiled,
    /// and one more learned value of that function.
    pub open spec fn compile_learned_value(self, target: Type) -> (
        ContextView,
        Result<Value, MathErrorView>,
    ) {
        match (self.current_block, self.current_function) {
            (Some(block), Some(name)) => match self.module.find_function(self.predictor(target)) {
                None => (self, Err(MathErrorView::UndefinedVariable(self.predictor(target)))),
                Some(hook) => {
                    let (named, text) = self.module.create_global_string(block, name);
                    let args = seq![text, immediate_integer(0), immediate_integer(0)];
                    match named.functions[hook].call_error(args) {
                        Some(error) => (self.with_module(named), Err(error)),
                        None => {
                            let (called, value) = named.add_function_call(block, hook, args);
                            (
                                self.with_module(
                                    called.with_learned_value(block.parent as int, value),
                                ),
                                Ok(value),
                            )
                        },
                    }
                },
            },
            _ => (self, Err(MathErrorView::UnknownSyntaxForm)),
        }
    }
}

impl LearnedValue {
    /// Lowers a learned value whose prediction is wanted as a `target`.
    pub fn compile(context: &mut CompilationContext, target: Type) -> (result: Result<
        Value,
        MathError,
    >)
        requires
            old(context)@.wf(),
        ensures
            (final(context)@, outcome(result)) == old(context)@.compile_learned_value(target),
            result is Ok ==> old(context)@.current_block is Some && stepped(
                old(context)@,
                final(context)@,
            ),
            // the predictor is called once, whether or not a prediction is
            // pending, and the function holds one more learned value
            result matches Ok(value) ==> ({
                let block = old(context)@.current_block.unwrap();
                let f = block.parent as int;
                &&& old(context)@.module.find_function(old(context)@.predictor(target)) is Some
                &&& forall|callee: usize| #[trigger]
                    final(context)@.module.calls(block, callee) == old(context)@.module.calls(
                        block,
                        callee,
                    ) + if old(context)@.module.find_function(old(context)@.predictor(target))
                        == Some(callee as int) {
                        1nat
                    } else {
                        0nat
                    }
                &&& final(context)@.module.functions[f].learned_values == old(context)@.module.functions[f].learned_values.push(value)
            }),
    {
        let function_count = context.module.function_table.functions.len();
        proof {
            let before = old(context)@;
            assert(before.module.functions.len() == function_count);
            if before.current_block is Some && before.compile_learned_value(target).1 is Ok {
                assert forall|callee: usize| #[trigger]
                    before.compile_learned_value(target).0.module.calls(
                        before.current_block.unwrap(),
                        callee,
                    ) == before.module.calls(before.current_block.unwrap(), callee)
                        + if before.module.find_function(before.predictor(target)) == Some(
                        callee as int,
                    ) {
                        1nat
                    } else {
                        0nat
                    } by {
                    lemma_learned_value_calls_predictor(before, target, callee);
                }
                lemma_learned_value_calls_predictor(before, target, 0);
            }
        }
        let block = match context.current_block {
            Some(block) => block,
            None => { return Err(MathError::UnknownSyntaxForm); },
        };
        let float = match target {
            Type::Float(_) => true,
            _ => false,
        };
        let hook = match &context.current_function {
            None => { return Err(MathError::UnknownSyntaxForm); },
            Some(_) => {
                let key = if float {
                    &context.placeholder_evaluation_float
                } else {
                    &context.placeholder_evaluation_int
                };
                match context.module.function_table.index_of(key) {
                    Some(hook) => hook,
                    None => { return Err(MathError::UndefinedVariable(key.name.clone())); },
                }
            },
        };
        let text = match &context.current_function {
            Some(key) => context.module.create_global_string(block, key.name.as_str()),
            None => { return Err(MathError::UnknownSyntaxForm); },
        };
        let zero = context.module.create_immediate_integer(0);
        let mut args = Vec::new();
        args.push(text);
        args.push(zero);
        args.push(zero);
        proof {
            assert(args@ =~= seq![text, immediate_integer(0), immediate_integer(0)]);
            assert(context@.module.functions.len() == context@.module.terminals().len());
            assert(old(context)@.module.functions.len() == old(context)@.module.terminals().len());
        }
        match context.module.check_call(hook, &args) {
            Ok(_) => {},
            Err(error) => { return Err(error); },
        }
        let value = context.module.emit_call(block, hook, &args);
        proof {
            assert(context@.module.functions.len() == context@.module.terminals().len());
        }
        context.module.add_learned_value_at(block.parent, value);
        proof {
            lemma_stepped_nothing(old(context)@);
        }
        Ok(value)
    }
}

} // verus!
