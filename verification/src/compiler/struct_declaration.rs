//! Declarations of struct types.

use vstd::prelude::*;

use crate::compiler::compile::{lemma_stepped_same, stepped, CompilationContext, ContextView};
use crate::compiler::type_names::{convert_type_name, named_type};
use crate::module::ModuleView;
use crate::object::{Property, PropertyView};
use crate::parser::Node;
use crate::types::{outcome, MathError, MathErrorView};

verus! {

pub struct StructDeclaration;

/// The properties that the children of `pair` from `from` on declare,
/// behind those in `properties`: each child names a property with its first
/// child and the property's type with its second.
pub open spec fn declared_properties(
    module: ModuleView,
    pair: Node,
    from: int,
    properties: Seq<PropertyView>,
) -> Result<Seq<PropertyView>, MathErrorView>
    decreases pair.children@.len() - from,
{
    if 0 <= from < pair.children@.len() {
        let field = pair.children@[from];
        if field.children@.len() < 2 {
            Err(MathErrorView::UnknownSyntaxForm)
        } else {
            match named_type(module, field.children@[1].text@) {
                Err(error) => Err(error),
                Ok(type_enum) => declared_properties(
                    module,
                    pair,
                    from + 1,
                    properties.push(PropertyView { name: field.children@[0].text@, type_enum }),
                ),
            }
        }
    } else {
        Ok(properties)
    }
}

impl ContextView {
    /// The context after a struct type was declared: the first child names
    /// it, and each further child declares one property.
    pub open spec fn compile_struct_declaration(self, pair: Node) -> (
        ContextView,
        Result<(), MathErrorView>,
    ) {
        if pair.children@.len() == 0 {
            (self, Err(MathErrorView::UnknownSyntaxForm))
        } else {
            match declared_properties(self.module, pair, 1, seq![]) {
                Err(error) => (self, Err(error)),
                Ok(properties) => (
                    self.with_module(
                        self.module.create_struct_type(pair.children@[0].text@, properties),
                    ),
                    Ok(()),
                ),
            }
        }
    }
}

impl StructDeclaration {
    pub fn compile(context: &mut CompilationContext, pair: &Node) -> (result: Result<(), MathError>)
        requires
            old(context)@.wf(),
        ensures
            (final(context)@, outcome(result)) == old(context)@.compile_struct_declaration(*pair),
            result is Ok ==> stepped(old(context)@, final(context)@),
    {
        if pair.children.len() == 0 {
            return Err(MathError::UnknownSyntaxForm);
        }
        let mut struct_fields: Vec<Property> = Vec::new();
        let mut i: usize = 1;
        proof {
            assert(struct_fields@.map_values(|p: Property| p@) =~= seq![]);
        }
        while i < pair.children.len()
            invariant
                1 <= i <= pair.children@.len(),
                context@ == old(context)@,
                declared_properties(context@.module, *pair, 1, seq![]) == declared_properties(
                    context@.module,
                    *pair,
                    i as int,
                    struct_fields@.map_values(|p: Property| p@),
                ),
            decreases pair.children@.len() - i,
        {
            let field = &pair.children[i];
            if field.children.len() < 2 {
                return Err(MathError::UnknownSyntaxForm);
            }
            let type_enum = match convert_type_name(
                &context.module,
                field.children[1].text.as_str(),
            ) {
                Ok(type_enum) => type_enum,
                Err(error) => { return Err(error); },
            };
            let ghost before = struct_fields@.map_values(|p: Property| p@);
            let property = Property { name: field.children[0].text.clone(), type_enum };
            proof {
                assert(property@ == (PropertyView { name: field.children@[0].text@, type_enum }));
            }
            struct_fields.push(property);
            proof {
                assert(struct_fields@.map_values(|p: Property| p@) =~= before.push(
                    PropertyView { name: field.children@[0].text@, type_enum },
                ));
            }
            i += 1;
        }
        context.module.create_struct_type(pair.children[0].text.as_str(), struct_fields);
        proof {
            lemma_stepped_same(old(context)@, context@);
        }
        Ok(())
    }
}

} // verus!
