//! `while (condition) { body }`

use vstd::prelude::*;

use crate::block::TerminalInstruction;
use crate::compiler::compile::{compile_body, compile_branch, stepped, CompilationContext, ContextView};
use crate::compiler::steps::{lemma_region_block, lemma_region_ended, lemma_region_finish, lemma_region_open, lemma_region_start, lemma_region_terminal};
use crate::parser::Node;
use crate::types::{outcome, MathError, MathErrorView};

verus! {

pub struct WhileLoop;

impl ContextView {
    /// The context after a loop was compiled. The loop is a condition block
    /// and a body block; the block before the loop branches to the
    /// condition; where the condition's lowering ends, a branch leads to the
    /// body if it holds and else to the continuation; a body that does not
    /// end on its own branches back to the condition. The cursor is left at
    /// the continuation.
    pub open spec fn compile_while(self, pair: Node) -> (ContextView, Result<(), MathErrorView>)
        decreases pair, 5nat, 0nat,
    {
        match self.current_block {
            None => (self, Err(MathErrorView::UnknownSyntaxForm)),
            Some(cursor) => if pair.children@.len() != 2 {
                (self, Err(MathErrorView::UnknownSyntaxForm))
            } else {
                let f = cursor.parent as int;
                let conditional_block = self.module.next_block(f);
                let with_condition = self.module.with_new_block(f, "while_condition"@);
                let body_block = with_condition.next_block(f);
                let entered = with_condition.with_new_block(f, "while_body"@).with_terminal(
                    cursor,
                    TerminalInstruction::Branch { target: conditional_block },
                );
                let continued_block = entered.next_block(f);
                let split = entered.with_new_block(f, entered.block(cursor).name + "cont"@);
                let (decided, result) = self.with_module(split).at(
                    conditional_block,
                ).compile_branch(pair.children@[0], body_block, continued_block);
                match result {
                    Err(error) => (decided, Err(error)),
                    Ok(_) => {
                        let (looped, result) = decided.at(body_block).compile_body(
                            pair.children@[1],
                            conditional_block,
                            false,
                        );
                        match result {
                            Err(error) => (looped, Err(error)),
                            Ok(_) => (looped.at(continued_block), Ok(())),
                        }
                    },
                }
            },
        }
    }
}

impl WhileLoop {
    pub fn compile(context: &mut CompilationContext, pair: &Node) -> (result: Result<(), MathError>)
        requires
            old(context)@.wf(),
        ensures
            (final(context)@, outcome(result)) == old(context)@.compile_while(*pair),
            result is Ok ==> old(context)@.current_block is Some && stepped(
                old(context)@,
                final(context)@,
            ),
        decreases pair, 5nat, 0nat,
    {
        let cursor = match context.current_block {
            Some(cursor) => cursor,
            None => { return Err(MathError::UnknownSyntaxForm); },
        };
        if pair.children.len() != 2 {
            return Err(MathError::UnknownSyntaxForm);
        }
        let ghost before = context@.module.terminals();
        let ghost mut now = before;
        let ghost mut open = set![cursor.index as int];
        let ghost f = cursor.parent as int;
        proof {
            lemma_region_start(before, cursor);
        }
        let conditional_block = context.module.new_block_at("while_condition", cursor.parent);
        proof {
            lemma_region_block(before, cursor, now, open, context@.module.terminals());
            open = open.insert(conditional_block.index as int);
            now = context@.module.terminals();
        }
        let body_block = context.module.new_block_at("while_body", cursor.parent);
        proof {
            lemma_region_block(before, cursor, now, open, context@.module.terminals());
            open = open.insert(body_block.index as int);
            now = context@.module.terminals();
        }
        context.module.add_branch(cursor, conditional_block);
        proof {
            lemma_region_terminal(
                before,
                cursor,
                now,
                open,
                cursor,
                TerminalInstruction::Branch { target: conditional_block },
                context@.module.terminals(),
            );
            open = open.remove(cursor.index as int);
            now = context@.module.terminals();
        }
        let mut continued_block = cursor;
        context.module.split_block_in_place(&mut continued_block);
        proof {
            lemma_region_block(before, cursor, now, open, context@.module.terminals());
            open = open.insert(continued_block.index as int);
            now = context@.module.terminals();
            lemma_region_open(before, cursor, now, open, conditional_block);
        }

        context.current_block = Some(conditional_block);
        match compile_branch(context, &pair.children[0], body_block, continued_block) {
            Ok(_) => {},
            Err(error) => { return Err(error); },
        }
        proof {
            lemma_region_ended(
                before,
                cursor,
                now,
                open,
                conditional_block,
                context@.module.terminals(),
                context@.current_block.unwrap(),
            );
            open = open.remove(conditional_block.index as int);
            now = context@.module.terminals();
            lemma_region_open(before, cursor, now, open, body_block);
        }

        context.current_block = Some(body_block);
        match compile_body(context, &pair.children[1], conditional_block, false) {
            Ok(_) => {},
            Err(error) => { return Err(error); },
        }
        proof {
            lemma_region_ended(
                before,
                cursor,
                now,
                open,
                body_block,
                context@.module.terminals(),
                context@.current_block.unwrap(),
            );
            open = open.remove(body_block.index as int);
            now = context@.module.terminals();
            lemma_region_open(before, cursor, now, open, continued_block);
            lemma_region_finish(before, cursor, now, open, continued_block);
        }
        context.current_block = Some(continued_block);
        Ok(())
    }
}

} // verus!
