//! An arm of a conditional chain with a condition of its own.

use vstd::prelude::*;

use crate::compiler::compile::{compile_pairs, compile_test, same_function, CompilationContext, ContextView};
use crate::compiler::control_flow::control_flow::ElseIfStatement;
use crate::compiler::steps::{lemma_lowered_blocks, lemma_region_block, lemma_region_open, lemma_region_start, lemma_region_step, region};
use crate::parser::Node;
use crate::types::{MathError, MathErrorView};

verus! {

impl ContextView {
    /// The context after an arm with a condition was compiled, and the arm:
    /// the condition is lowered from a new block on, and so is the body.
    pub open spec fn compile_else_if(self, pair: Node) -> (
        ContextView,
        Result<ElseIfStatement, MathErrorView>,
    )
        decreases pair, 3nat, 0nat,
    {
        match self.current_block {
            None => (self, Err(MathErrorView::UnknownSyntaxForm)),
            Some(cursor) => if pair.children@.len() != 2 {
                (self, Err(MathErrorView::UnknownSyntaxForm))
            } else {
                let f = cursor.parent as int;
                let entry_block = self.module.next_block(f);
                let with_condition = self.module.with_new_block(f, "else_if_condition"@);
                let start_block = with_condition.next_block(f);
                let (tested, value) = self.with_module(
                    with_condition.with_new_block(f, "else_if_body"@),
                ).at(entry_block).compile_test(pair.children@[0]);
                match (value, tested.current_block) {
                    (Err(error), _) => (tested, Err(error)),
                    (Ok(_), None) => (tested, Err(MathErrorView::UnknownSyntaxForm)),
                    (Ok(conditional_value), Some(conditional_block)) => {
                        let (after, result) = tested.at(start_block).compile_pairs(
                            pair.children@[1],
                            0,
                        );
                        match (result, after.current_block) {
                            (Err(error), _) => (after, Err(error)),
                            (Ok(_), None) => (after, Err(MathErrorView::UnknownSyntaxForm)),
                            (Ok(_), Some(body_block)) => (
                                after,
                                Ok(
                                    ElseIfStatement {
                                        body_block,
                                        conditional_block,
                                        conditional_value,
                                        entry_block,
                                        start_block,
                                    },
                                ),
                            ),
                        }
                    },
                }
            },
        }
    }
}

impl ElseIfStatement {
    pub fn compile(context: &mut CompilationContext, pair: &Node) -> (result: Result<
        ElseIfStatement,
        MathError,
    >)
        requires
            old(context)@.wf(),
        ensures
            final(context)@ == old(context)@.compile_else_if(*pair).0,
            match result {
                Ok(arm) => old(context)@.compile_else_if(*pair).1 == Ok::<
                    ElseIfStatement,
                    MathErrorView,
                >(arm),
                Err(error) => old(context)@.compile_else_if(*pair).1 == Err::<
                    ElseIfStatement,
                    MathErrorView,
                >(error@),
            },
            result matches Ok(arm) ==> {
                &&& old(context)@.current_block matches Some(cursor)
                &&& final(context)@.wf()
                &&& same_function(old(context)@, final(context)@)
                &&& final(context)@.current_block == Some(arm.body_block)
                &&& arm.entry_block.parent == cursor.parent
                &&& arm.entry_block.index == old(context)@.module.terminals()[cursor.parent as int].len()
                &&& arm.conditional_block.parent == cursor.parent
                &&& arm.body_block.parent == cursor.parent
                &&& arm.conditional_block != arm.body_block
                &&& arm.conditional_value.type_enum.resolved().decides()
                &&& region(
                    old(context)@.module.terminals_with_block(cursor.parent as int),
                    arm.entry_block,
                    final(context)@.module.terminals(),
                    set![arm.conditional_block.index as int, arm.body_block.index as int],
                )
            },
        decreases pair, 3nat, 0nat,
    {
        let cursor = match context.current_block {
            Some(cursor) => cursor,
            None => { return Err(MathError::UnknownSyntaxForm); },
        };
        if pair.children.len() != 2 {
            return Err(MathError::UnknownSyntaxForm);
        }
        let ghost f = cursor.parent as int;
        let entry_block = context.module.new_block_at("else_if_condition", cursor.parent);
        let ghost before = context@.module.terminals();
        let ghost mut now = before;
        let ghost mut open = set![entry_block.index as int];
        proof {
            lemma_region_start(before, entry_block);
        }
        let start_block = context.module.new_block_at("else_if_body", cursor.parent);
        proof {
            lemma_region_block(before, entry_block, now, open, context@.module.terminals());
            open = open.insert(start_block.index as int);
            now = context@.module.terminals();
        }

        context.current_block = Some(entry_block);
        let conditional_value = match compile_test(context, &pair.children[0]) {
            Ok(value) => value,
            Err(error) => { return Err(error); },
        };
        let conditional_block = match context.current_block {
            Some(block) => block,
            None => { return Err(MathError::UnknownSyntaxForm); },
        };
        proof {
            lemma_lowered_blocks(now, entry_block, context@.module.terminals(), conditional_block);
            lemma_region_step(
                before,
                entry_block,
                now,
                open,
                entry_block,
                context@.module.terminals(),
                conditional_block,
            );
            open = open.remove(entry_block.index as int).insert(conditional_block.index as int);
            now = context@.module.terminals();
            lemma_region_open(before, entry_block, now, open, start_block);
        }

        context.current_block = Some(start_block);
        match compile_pairs(context, &pair.children[1]) {
            Ok(_) => {},
            Err(error) => { return Err(error); },
        }
        let body_block = match context.current_block {
            Some(block) => block,
            None => { return Err(MathError::UnknownSyntaxForm); },
        };
        proof {
            lemma_lowered_blocks(now, start_block, context@.module.terminals(), body_block);
            lemma_region_step(
                before,
                entry_block,
                now,
                open,
                start_block,
                context@.module.terminals(),
                body_block,
            );
            assert(conditional_block.index != start_block.index);
            open = open.remove(start_block.index as int).insert(body_block.index as int);
            assert(open =~= set![conditional_block.index as int, body_block.index as int]);
        }
        Ok(
            ElseIfStatement {
                body_block,
                conditional_block,
                conditional_value,
                entry_block,
                start_block,
            },
        )
    }
}

} // verus!
