//! Assignments to variables and to properties of structs.

use vstd::prelude::*;

use crate::block::Value;
use crate::compiler::compile::{compile_value, lemma_stepped_same, lemma_stepped_twice, stepped, CompilationContext, ContextView};
use crate::parser::{Node, Rule};
use crate::types::{outcome, MathError, MathErrorView};

verus! {

pub struct VariableAssignment;

impl ContextView {
    /// The context after the value of the last child was stored to the
    /// variable that the first child names, and the store.
    pub open spec fn compile_variable_assignment(self, pair: Node) -> (
        ContextView,
        Result<Value, MathErrorView>,
    )
        decreases pair, 4nat, 0nat,
    {
        let children = pair.children@;
        match self.current_block {
            None => (self, Err(MathErrorView::UnknownSyntaxForm)),
            Some(cursor) => if children.len() < 2 {
                (self, Err(MathErrorView::UnknownSyntaxForm))
            } else {
                match self.module.get_variable(cursor, children[0].text@) {
                    Err(error) => (self, Err(error)),
                    Ok(variable) => {
                        let (valued, value) = self.compile_value(children.last());
                        match (value, valued.current_block) {
                            (Err(error), _) => (valued, Err(error)),
                            (Ok(_), None) => (valued, Err(MathErrorView::UnknownSyntaxForm)),
                            (Ok(value), Some(exit)) => {
                                let (stored, result) = valued.module.add_store(
                                    exit,
                                    variable,
                                    value,
                                );
                                (valued.with_module(stored), result)
                            },
                        }
                    },
                }
            },
        }
    }

    /// The context after the value of the second child was stored to a
    /// property of a struct, and the store. The first child is a chain of
    /// two names: the variable that holds the struct, and the property.
    /// There are no properties of properties.
    pub open spec fn compile_property_assignment(self, pair: Node) -> (
        ContextView,
        Result<Value, MathErrorView>,
    )
        decreases pair, 4nat, 0nat,
    {
        let children = pair.children@;
        match self.current_block {
            None => (self, Err(MathErrorView::UnknownSyntaxForm)),
            Some(cursor) => if children.len() != 2 || children[0].children@.len() < 2 {
                (self, Err(MathErrorView::UnknownSyntaxForm))
            } else if children[0].children@.len() > 2 {
                (self, Err(MathErrorView::UnsupportedOperation))
            } else {
                match self.module.get_variable(cursor, children[0].children@[0].text@) {
                    Err(error) => (self, Err(error)),
                    Ok(object) => {
                        let (valued, value) = self.compile_value(children[1]);
                        match (value, valued.current_block) {
                            (Err(error), _) => (valued, Err(error)),
                            (Ok(_), None) => (valued, Err(MathErrorView::UnknownSyntaxForm)),
                            (Ok(value), Some(exit)) => {
                                let (stored, result) = valued.module.add_store_to_obj(
                                    exit,
                                    object,
                                    children[0].children@[1].text@,
                                    value,
                                );
                                (valued.with_module(stored), result)
                            },
                        }
                    },
                }
            },
        }
    }

    /// An assignment to a variable or to a property, by the kind of the
    /// node.
    pub open spec fn compile_assignment(self, pair: Node) -> (
        ContextView,
        Result<Value, MathErrorView>,
    )
        decreases pair, 5nat, 0nat,
    {
        if pair.rule == Rule::PropertyAssignment {
            self.compile_property_assignment(pair)
        } else {
            self.compile_variable_assignment(pair)
        }
    }
}

impl VariableAssignment {
    fn compile_variable(context: &mut CompilationContext, pair: &Node) -> (result: Result<
        Value,
        MathError,
    >)
        requires
            old(context)@.wf(),
        ensures
            (final(context)@, outcome(result)) == old(context)@.compile_variable_assignment(
                *pair,
            ),
            result is Ok ==> old(context)@.current_block is Some && stepped(
                old(context)@,
                final(context)@,
            ),
        decreases pair, 4nat, 0nat,
    {
        let cursor = match context.current_block {
            Some(cursor) => cursor,
            None => { return Err(MathError::UnknownSyntaxForm); },
        };
        let count = pair.children.len();
        if count < 2 {
            return Err(MathError::UnknownSyntaxForm);
        }
        let variable = match context.module.get_variable(
            cursor,
            pair.children[0].text.as_str(),
        ) {
            Ok(variable) => variable,
            Err(error) => { return Err(error); },
        };
        let value = match compile_value(context, &pair.children[count - 1]) {
            Ok(value) => value,
            Err(error) => { return Err(error); },
        };
        let exit = match context.current_block {
            Some(exit) => exit,
            None => { return Err(MathError::UnknownSyntaxForm); },
        };
        let ghost valued = context@;
        let stored = context.module.add_store(exit, variable, value);
        proof {
            lemma_stepped_same(valued, context@);
            lemma_stepped_twice(old(context)@, valued, context@);
        }
        stored
    }

    fn compile_property(context: &mut CompilationContext, pair: &Node) -> (result: Result<
        Value,
        MathError,
    >)
        requires
            old(context)@.wf(),
        ensures
            (final(context)@, outcome(result)) == old(context)@.compile_property_assignment(
                *pair,
            ),
            result is Ok ==> old(context)@.current_block is Some && stepped(
                old(context)@,
                final(context)@,
            ),
        decreases pair, 4nat, 0nat,
    {
        let cursor = match context.current_block {
            Some(cursor) => cursor,
            None => { return Err(MathError::UnknownSyntaxForm); },
        };
        if pair.children.len() != 2 || pair.children[0].children.len() < 2 {
            return Err(MathError::UnknownSyntaxForm);
        }
        let property_chain = &pair.children[0].children;
        if property_chain.len() > 2 {
            return Err(MathError::UnsupportedOperation);
        }
        let object = match context.module.get_variable(cursor, property_chain[0].text.as_str()) {
            Ok(object) => object,
            Err(error) => { return Err(error); },
        };
        let value = match compile_value(context, &pair.children[1]) {
            Ok(value) => value,
            Err(error) => { return Err(error); },
        };
        let exit = match context.current_block {
            Some(exit) => exit,
            None => { return Err(MathError::UnknownSyntaxForm); },
        };
        let ghost valued = context@;
        let stored = context.module.add_store_to_obj(
            exit,
            object,
            property_chain[1].text.as_str(),
            value,
        );
        proof {
            lemma_stepped_same(valued, context@);
            lemma_stepped_twice(old(context)@, valued, context@);
        }
        stored
    }

    pub fn compile(context: &mut CompilationContext, pair: &Node) -> (result: Result<
        Value,
        MathError,
    >)
        requires
            old(context)@.wf(),
        ensures
            (final(context)@, outcome(result)) == old(context)@.compile_assignment(*pair),
            result is Ok ==> old(context)@.current_block is Some && stepped(
                old(context)@,
                final(context)@,
            ),
        decreases pair, 5nat, 0nat,
    {
        match pair.rule {
            Rule::PropertyAssignment => Self::compile_property(context, pair),
            _ => Self::compile_variable(context, pair),
        }
    }
}

} // verus!
