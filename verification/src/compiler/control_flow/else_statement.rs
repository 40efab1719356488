//! The arm of a conditional chain that has no condition.

use vstd::prelude::*;

use crate::compiler::compile::{compile_pairs, same_function, CompilationContext, ContextView};
use crate::compiler::control_flow::control_flow::ElseStatement;
use crate::compiler::steps::lowered;
use crate::parser::Node;
use crate::types::{MathError, MathErrorView};

verus! {

impl ContextView {
    /// The context after the last arm of a chain was compiled into a block
    /// of its own, and the arm. The only child holds the statements of the
    /// body.
    pub open spec fn compile_else(self, pair: Node) -> (
        ContextView,
        Result<ElseStatement, MathErrorView>,
    )
        decreases pair, 3nat, 0nat,
    {
        match self.current_block {
            None => (self, Err(MathErrorView::UnknownSyntaxForm)),
            Some(cursor) => if pair.children@.len() != 1 {
                (self, Err(MathErrorView::UnknownSyntaxForm))
            } else {
                let f = cursor.parent as int;
                let body = self.module.next_block(f);
                let (after, result) = self.with_module(
                    self.module.with_new_block(f, "else_body"@),
                ).at(body).compile_pairs(pair.children@[0], 0);
                match (result, after.current_block) {
                    (Err(error), _) => (after, Err(error)),
                    (Ok(_), None) => (after, Err(MathErrorView::UnknownSyntaxForm)),
                    (Ok(_), Some(exit)) => (
                        after,
                        Ok(ElseStatement { body: exit, start_block: body }),
                    ),
                }
            },
        }
    }
}

impl ElseStatement {
    pub fn compile(context: &mut CompilationContext, pair: &Node) -> (result: Result<
        ElseStatement,
        MathError,
    >)
        requires
            old(context)@.wf(),
        ensures
            final(context)@ == old(context)@.compile_else(*pair).0,
            match result {
                Ok(arm) => old(context)@.compile_else(*pair).1 == Ok::<
                    ElseStatement,
                    MathErrorView,
                >(arm),
                Err(error) => old(context)@.compile_else(*pair).1 == Err::<
                    ElseStatement,
                    MathErrorView,
                >(error@),
            },
            result matches Ok(arm) ==> {
                &&& old(context)@.current_block matches Some(cursor)
                &&& final(context)@.wf()
                &&& same_function(old(context)@, final(context)@)
                &&& final(context)@.current_block == Some(arm.body)
                &&& arm.start_block.parent == cursor.parent
                &&& arm.start_block.index == old(context)@.module.terminals()[cursor.parent as int].len()
                &&& lowered(
                    old(context)@.module.terminals_with_block(cursor.parent as int),
                    arm.start_block,
                    final(context)@.module.terminals(),
                    arm.body,
                )
            },
        decreases pair, 3nat, 0nat,
    {
        let cursor = match context.current_block {
            Some(cursor) => cursor,
            None => { return Err(MathError::UnknownSyntaxForm); },
        };
        if pair.children.len() != 1 {
            return Err(MathError::UnknownSyntaxForm);
        }
        let body_block = context.module.new_block_at("else_body", cursor.parent);
        context.current_block = Some(body_block);
        match compile_pairs(context, &pair.children[0]) {
            Ok(_) => {},
            Err(error) => { return Err(error); },
        }
        match context.current_block {
            Some(exit) => Ok(ElseStatement { body: exit, start_block: body_block }),
            None => Err(MathError::UnknownSyntaxForm),
        }
    }
}

} // verus!
