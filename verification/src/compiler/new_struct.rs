//! `new Name`

use vstd::prelude::*;

use crate::block::Value;
use crate::compiler::compile::{lemma_stepped_same, stepped, CompilationContext, ContextView};
use crate::parser::Node;
use crate::types::{outcome, MathError, MathErrorView};

verus! {

pub struct NewStruct;

impl ContextView {
    /// The context after a struct of the type that the first child names
    /// was allocated, and its address.
    pub open spec fn compile_new_struct(self, pair: Node) -> (
        ContextView,
        Result<Value, MathErrorView>,
    ) {
        match self.current_block {
            None => (self, Err(MathErrorView::UnknownSyntaxForm)),
            Some(cursor) => if pair.children@.len() == 0 {
                (self, Err(MathErrorView::UnknownSyntaxForm))
            } else if !self.module.can_allocate(pair.children@[0].text@) {
                (self, Err(MathErrorView::UndefinedVariable(pair.children@[0].text@)))
            } else {
                let (allocated, value) = self.module.add_struct_malloc(
                    cursor,
                    pair.children@[0].text@,
                );
                (self.with_module(allocated), Ok(value))
            },
        }
    }
}

impl NewStruct {
    pub fn compile(context: &mut CompilationContext, pair: &Node) -> (result: Result<
        Value,
        MathError,
    >)
        requires
            old(context)@.wf(),
        ensures
            (final(context)@, outcome(result)) == old(context)@.compile_new_struct(*pair),
            result is Ok ==> old(context)@.current_block is Some && stepped(
                old(context)@,
                final(context)@,
            ),
    {
        let cursor = match context.current_block {
            Some(cursor) => cursor,
            None => { return Err(MathError::UnknownSyntaxForm); },
        };
        if pair.children.len() == 0 {
            return Err(MathError::UnknownSyntaxForm);
        }
        let struct_name = &pair.children[0].text;
        if !context.module.check_struct_malloc(struct_name.as_str()) {
            return Err(MathError::UndefinedVariable(struct_name.clone()));
        }
        let value = context.module.add_struct_malloc(cursor, struct_name.as_str());
        proof {
            lemma_stepped_same(old(context)@, context@);
        }
        Ok(value)
    }
}

} // verus!
