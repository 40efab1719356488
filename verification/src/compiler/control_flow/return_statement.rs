//! `return value;`

use vstd::prelude::*;

use crate::compiler::compile::{compile_value, lemma_closed, lemma_stepped_same, lemma_stepped_twice, stepped, CompilationContext, ContextView};
use crate::compiler::hooks::lemma_return_calls_nothing;
use crate::parser::Node;
use crate::types::{outcome, MathError, MathErrorView};

verus! {

pub struct Return;

impl ContextView {
    /// The context after a return of a value was compiled: the value, which
    /// is the last child, then the finish hook, then the terminal.
    pub open spec fn compile_return(self, pair: Node) -> (ContextView, Result<(), MathErrorView>)
        decreases pair, 5nat, 0nat,
    {
        if pair.children@.len() == 0 {
            (self, Err(MathErrorView::UnknownSyntaxForm))
        } else {
            let (valued, value) = self.compile_value(pair.children@.last());
            match value {
                Err(error) => (valued, Err(error)),
                Ok(value) => {
                    let (finished, result) = valued.add_finish_function_call();
                    match result {
                        Err(error) => (finished, Err(error)),
                        Ok(_) => match finished.current_block {
                            None => (finished, Err(MathErrorView::UnknownSyntaxForm)),
                            Some(block) => (
                                finished.with_module(finished.module.add_return(block, value)),
                                Ok(()),
                            ),
                        },
                    }
                },
            }
        }
    }
}

impl Return {
    pub fn compile(context: &mut CompilationContext, pair: &Node) -> (result: Result<(), MathError>)
        requires
            old(context)@.wf(),
        ensures
            (final(context)@, outcome(result)) == old(context)@.compile_return(*pair),
            result is Ok ==> stepped(old(context)@, final(context)@),
            // between the value and the terminal the finish hook is called
            // once where a prediction is pending, and nothing else is called
            result is Ok ==> ({
                let valued = old(context)@.compile_value(pair.children@.last()).0;
                &&& valued.current_block matches Some(exit)
                &&& valued.prediction_index == old(context)@.prediction_index
                &&& final(context)@.current_block == Some(exit)
                &&& final(context)@.module.terminal(exit) is Return
                &&& forall|callee: usize| #[trigger]
                    final(context)@.module.calls(exit, callee) == valued.module.calls(
                        exit,
                        callee,
                    ) + valued.calls_at_return(callee)
            }),
        decreases pair, 5nat, 0nat,
    {
        let count = pair.children.len();
        if count == 0 {
            return Err(MathError::UnknownSyntaxForm);
        }
        let value = match compile_value(context, &pair.children[count - 1]) {
            Ok(value) => value,
            Err(error) => { return Err(error); },
        };
        let ghost valued = context@;
        match context.add_finish_function_call() {
            Ok(_) => {},
            Err(error) => { return Err(error); },
        }
        let block = match context.current_block {
            Some(block) => block,
            None => { return Err(MathError::UnknownSyntaxForm); },
        };
        let ghost finished = context@;
        context.module.add_return(block, value);
        proof {
            lemma_stepped_same(valued, finished);
            lemma_stepped_twice(old(context)@, valued, finished);
            lemma_closed(old(context)@, finished, context@);
            assert forall|callee: usize| #[trigger]
                context@.module.calls(block, callee) == valued.module.calls(block, callee)
                    + valued.calls_at_return(callee) by {
                lemma_return_calls_nothing(finished.module, block, value, callee);
            }
        }
        Ok(())
    }
}

} // verus!
