//! Calls of functions by name.

use vstd::prelude::*;

use crate::block::Value;
use crate::compiler::compile::{compile_value, lemma_stepped_nothing, lemma_stepped_same, lemma_stepped_twice, stepped, CompilationContext, ContextView};
use crate::function_table::FunctionKey;
use crate::parser::Node;
use crate::types::{outcome, MathError, MathErrorView};

verus! {

pub struct FunctionCall;

impl ContextView {
    /// The context after the children of `parent` from `from` on were
    /// compiled as the arguments of a call, and their values behind those in
    /// `values`.
    pub open spec fn compile_arguments(self, parent: Node, from: int, values: Seq<Value>) -> (
        ContextView,
        Result<Seq<Value>, MathErrorView>,
    )
        decreases parent, 1nat, parent.children@.len() - from,
    {
        if 0 <= from < parent.children@.len() {
            let (after, value) = self.compile_value(parent.children@[from]);
            match value {
                Ok(value) => after.compile_arguments(parent, from + 1, values.push(value)),
                Err(error) => (after, Err(error)),
            }
        } else {
            (self, Ok(values))
        }
    }

    /// The context after the call of the function at the cursor: the
    /// function is found by its transformed name and held to its parameters.
    pub open spec fn call_by_name(self, name: Seq<char>, args: Seq<Value>) -> (
        ContextView,
        Result<Value, MathErrorView>,
    ) {
        match self.current_block {
            None => (self, Err(MathErrorView::UnknownSyntaxForm)),
            Some(block) => match self.module.find_function("_"@ + name) {
                None => (self, Err(MathErrorView::UndefinedVariable("_"@ + name))),
                Some(function) => match self.module.functions[function].call_error(args) {
                    Some(error) => (self, Err(error)),
                    None => {
                        let (called, value) = self.module.add_function_call(block, function, args);
                        (self.with_module(called), Ok(value))
                    },
                },
            },
        }
    }

    /// The context after a call was compiled, and the call's result. The
    /// first child names the function; the children of the second, if there
    /// is one, are the arguments, compiled from left to right.
    pub open spec fn compile_function_call(self, pair: Node) -> (
        ContextView,
        Result<Value, MathErrorView>,
    )
        decreases pair, 5nat, 0nat,
    {
        if pair.children@.len() == 0 || pair.children@.len() > 2 || self.current_block is None {
            (self, Err(MathErrorView::UnknownSyntaxForm))
        } else if pair.children@.len() == 1 {
            self.call_by_name(pair.children@[0].text@, seq![])
        } else {
            let (after, args) = self.compile_arguments(pair.children@[1], 0, seq![]);
            match args {
                Err(error) => (after, Err(error)),
                Ok(args) => after.call_by_name(pair.children@[0].text@, args),
            }
        }
    }
}

impl FunctionCall {
    fn call_by_name(context: &mut CompilationContext, name: &str, args: &Vec<Value>) -> (result:
        Result<Value, MathError>)
        requires
            old(context)@.wf(),
        ensures
            (final(context)@, outcome(result)) == old(context)@.call_by_name(name@, args@),
            final(context)@.module.terminals() == old(context)@.module.terminals(),
            old(context)@.module.wf() ==> final(context)@.module.wf(),
            final(context)@.current_block == old(context)@.current_block,
            result is Ok ==> old(context)@.current_block is Some,
    {
        let block = match context.current_block {
            Some(block) => block,
            None => { return Err(MathError::UnknownSyntaxForm); },
        };
        let function_name = context.module.transform_function_name(name);
        let key = FunctionKey { name: function_name };
        let function = match context.module.function_table.index_of(&key) {
            Some(function) => function,
            None => { return Err(MathError::UndefinedVariable(key.name)); },
        };
        match context.module.check_call(function, args) {
            Ok(_) => {},
            Err(error) => { return Err(error); },
        }
        Ok(context.module.emit_call(block, function, args))
    }

    fn compile_arguments(context: &mut CompilationContext, parent: &Node) -> (result: Result<
        Vec<Value>,
        MathError,
    >)
        requires
            old(context)@.wf(),
        ensures
            final(context)@ == old(context)@.compile_arguments(*parent, 0, seq![]).0,
            match result {
                Ok(values) => old(context)@.compile_arguments(*parent, 0, seq![]).1 == Ok::<
                    Seq<Value>,
                    MathErrorView,
                >(values@),
                Err(error) => old(context)@.compile_arguments(*parent, 0, seq![]).1 == Err::<
                    Seq<Value>,
                    MathErrorView,
                >(error@),
            },
            result is Ok ==> stepped(old(context)@, final(context)@),
        decreases parent, 1nat, parent.children@.len(),
    {
        let ghost before = context@;
        let mut values: Vec<Value> = Vec::new();
        proof {
            lemma_stepped_nothing(before);
        }
        let mut i: usize = 0;
        while i < parent.children.len()
            invariant
                i <= parent.children@.len(),
                before == old(context)@,
                before.wf(),
                context@.wf(),
                stepped(before, context@),
                before.compile_arguments(*parent, 0, seq![]) == context@.compile_arguments(
                    *parent,
                    i as int,
                    values@,
                ),
            decreases parent.children@.len() - i,
        {
            let ghost now = context@;
            let value = match compile_value(context, &parent.children[i]) {
                Ok(value) => value,
                Err(error) => { return Err(error); },
            };
            values.push(value);
            proof {
                lemma_stepped_twice(before, now, context@);
            }
            i += 1;
        }
        Ok(values)
    }

    pub fn compile(context: &mut CompilationContext, pair: &Node) -> (result: Result<
        Value,
        MathError,
    >)
        requires
            old(context)@.wf(),
        ensures
            (final(context)@, outcome(result)) == old(context)@.compile_function_call(*pair),
            result is Ok ==> old(context)@.current_block is Some && stepped(
                old(context)@,
                final(context)@,
            ),
        decreases pair, 5nat, 0nat,
    {
        let count = pair.children.len();
        if count == 0 || count > 2 || context.current_block.is_none() {
            return Err(MathError::UnknownSyntaxForm);
        }
        let ghost before = context@;
        let argument_values = if count == 2 {
            match Self::compile_arguments(context, &pair.children[1]) {
                Ok(values) => values,
                Err(error) => { return Err(error); },
            }
        } else {
            proof {
                lemma_stepped_nothing(before);
            }
            Vec::new()
        };
        let ghost compiled = context@;
        let result = Self::call_by_name(context, pair.children[0].text.as_str(), &argument_values);
        proof {
            if result is Ok {
                lemma_stepped_same(compiled, context@);
                lemma_stepped_twice(before, compiled, context@);
            }
        }
        result
    }
}

} // verus!
