//! Declarations of variables, of a function or of the module.

use vstd::prelude::*;

use crate::compiler::compile::{compile_value_as, lemma_stepped_same, lemma_stepped_twice, stepped, CompilationContext, ContextView};
use crate::compiler::type_names::{convert_type_name, named_type};
use crate::parser::{Node, Rule};
use crate::types::{outcome, MathError, MathErrorView};

verus! {

pub struct VariableDeclaration;

/// What the compiler knows of a variable from its declaration.
#[derive(Debug)]
pub struct VariableMetadata {
    pub mutable: bool,
    pub name: String,
}

/// The text of the last of the nodes that is of kind `rule`; the empty text
/// where none is.
pub open spec fn last_text(children: Seq<Node>, rule: Rule) -> Seq<char>
    decreases children.len(),
{
    if children.len() == 0 {
        seq![]
    } else if children.last().rule == rule {
        children.last().text@
    } else {
        last_text(children.drop_last(), rule)
    }
}

pub fn get_last_text(children: &Vec<Node>, rule: Rule) -> (result: String)
    ensures
        result@ == last_text(children@, rule),
{
    let mut i = children.len();
    proof {
        assert(children@.take(i as int) =~= children@);
    }
    while i > 0
        invariant
            i <= children@.len(),
            last_text(children@, rule) == last_text(children@.take(i as int), rule),
        decreases i,
    {
        proof {
            assert(children@.take(i as int).drop_last() =~= children@.take(i as int - 1));
        }
        if children[i - 1].rule == rule {
            return children[i - 1].text.clone();
        }
        i -= 1;
    }
    String::new()
}

impl ContextView {
    /// The context after a variable was declared. Its name is the text of
    /// the last token among the children, its type that of the last type
    /// token; only numbers can be stored in a variable. Outside every
    /// function the variable belongs to the module and starts as zero.
    /// Inside a function it gets storage on the stack, and the value of the
    /// last child is stored to it.
    pub open spec fn compile_variable_declaration(self, pair: Node) -> (
        ContextView,
        Result<(), MathErrorView>,
    )
        decreases pair, 5nat, 0nat,
    {
        let children = pair.children@;
        let name = last_text(children, Rule::Token);
        match named_type(self.module, last_text(children, Rule::TypeToken)) {
            Err(error) => (self, Err(error)),
            Ok(type_enum) => if !type_enum.storable() {
                (self, Err(MathErrorView::UnsupportedOperation))
            } else {
                match self.current_block {
                    None => (
                        self.with_module(self.module.add_global_variable(name, type_enum).0),
                        Ok(()),
                    ),
                    Some(cursor) => if children.len() == 0 {
                        (self, Err(MathErrorView::UnknownSyntaxForm))
                    } else {
                        let (declared, variable) = self.module.add_variable(
                            cursor,
                            name,
                            type_enum,
                            true,
                        );
                        let (valued, value) = self.with_module(declared).compile_value_as(
                            children.last(),
                            type_enum,
                        );
                        match (value, valued.current_block) {
                            (Err(error), _) => (valued, Err(error)),
                            (Ok(_), None) => (valued, Err(MathErrorView::UnknownSyntaxForm)),
                            (Ok(value), Some(exit)) => {
                                let (stored, result) = valued.module.add_store(
                                    exit,
                                    variable,
                                    value,
                                );
                                (
                                    valued.with_module(stored),
                                    match result {
                                        Ok(_) => Ok(()),
                                        Err(error) => Err(error),
                                    },
                                )
                            },
                        }
                    },
                }
            },
        }
    }
}

impl VariableDeclaration {
    pub fn compile(context: &mut CompilationContext, pair: &Node) -> (result: Result<(), MathError>)
        requires
            old(context)@.wf(),
        ensures
            (final(context)@, outcome(result)) == old(context)@.compile_variable_declaration(
                *pair,
            ),
            result is Ok ==> stepped(old(context)@, final(context)@),
        decreases pair, 5nat, 0nat,
    {
        let variable_name = get_last_text(&pair.children, Rule::Token);
        let variable_type = get_last_text(&pair.children, Rule::TypeToken);
        let variable_type = match convert_type_name(&context.module, variable_type.as_str()) {
            Ok(variable_type) => variable_type,
            Err(error) => { return Err(error); },
        };
        if !variable_type.is_storable() {
            return Err(MathError::UnsupportedOperation);
        }
        let ghost before = context@;
        match context.current_block {
            None => {
                context.module.add_global_variable(variable_name.as_str(), variable_type);
                proof {
                    lemma_stepped_same(before, context@);
                }
                Ok(())
            },
            Some(cursor) => {
                let count = pair.children.len();
                if count == 0 {
                    return Err(MathError::UnknownSyntaxForm);
                }
                let variable = context.module.add_mutable_variable(
                    cursor,
                    variable_name.as_str(),
                    variable_type,
                );
                let ghost declared = context@;
                let value = match compile_value_as(
                    context,
                    &pair.children[count - 1],
                    variable_type,
                ) {
                    Ok(value) => value,
                    Err(error) => { return Err(error); },
                };
                let exit = match context.current_block {
                    Some(exit) => exit,
                    None => { return Err(MathError::UnknownSyntaxForm); },
                };
                let ghost valued = context@;
                let stored = context.module.add_store(exit, variable, value);
                proof {
                    lemma_stepped_same(before, declared);
                    lemma_stepped_twice(before, declared, valued);
                    lemma_stepped_same(valued, context@);
                    lemma_stepped_twice(before, valued, context@);
                }
                match stored {
                    Ok(_) => Ok(()),
                    Err(error) => Err(error),
                }
            },
        }
    }
}

} // verus!
