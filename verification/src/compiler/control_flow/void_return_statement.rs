//! `return;`

use vstd::prelude::*;

use crate::block::TerminalInstruction;
use crate::compiler::compile::{ended, lemma_closed, lemma_stepped_same, CompilationContext, ContextView};
use crate::compiler::hooks::lemma_terminal_calls_nothing;
use crate::types::{outcome, MathError, MathErrorView};

verus! {

pub struct VoidReturn;

impl ContextView {
    /// The context after a return without a value was compiled: the finish
    /// hook, then the terminal.
    pub open spec fn compile_void_return(self) -> (ContextView, Result<(), MathErrorView>) {
        let (finished, result) = self.add_finish_function_call();
        match result {
            Err(error) => (finished, Err(error)),
            Ok(_) => match finished.current_block {
                None => (finished, Err(MathErrorView::UnknownSyntaxForm)),
                Some(block) => (
                    finished.with_module(
                        finished.module.with_terminal(block, TerminalInstruction::ReturnVoid),
                    ),
                    Ok(()),
                ),
            },
        }
    }
}

impl VoidReturn {
    pub fn compile(context: &mut CompilationContext) -> (result: Result<(), MathError>)
        requires
            old(context)@.wf(),
        ensures
            (final(context)@, outcome(result)) == old(context)@.compile_void_return(),
            result is Ok ==> ended(old(context)@, final(context)@),
            result is Ok ==> final(context)@.current_block == old(context)@.current_block,
            // in front of the terminal the finish hook is called once where a
            // prediction is pending, and nothing else is called
            result is Ok ==> ({
                &&& old(context)@.current_block matches Some(exit)
                &&& final(context)@.module.terminal(exit) is ReturnVoid
                &&& forall|callee: usize| #[trigger]
                    final(context)@.module.calls(exit, callee) == old(context)@.module.calls(
                        exit,
                        callee,
                    ) + old(context)@.calls_at_return(callee)
            }),
    {
        match context.add_finish_function_call() {
            Ok(_) => {},
            Err(error) => { return Err(error); },
        }
        let block = match context.current_block {
            Some(block) => block,
            None => { return Err(MathError::UnknownSyntaxForm); },
        };
        let ghost finished = context@;
        context.module.add_return_void(block);
        proof {
            lemma_stepped_same(old(context)@, finished);
            lemma_closed(old(context)@, finished, context@);
            assert forall|callee: usize| #[trigger]
                context@.module.calls(block, callee) == old(context)@.module.calls(block, callee)
                    + old(context)@.calls_at_return(callee) by {
                lemma_terminal_calls_nothing(
                    finished.module,
                    block,
                    TerminalInstruction::ReturnVoid,
                    callee,
                );
            }
        }
        Ok(())
    }
}

} // verus!
