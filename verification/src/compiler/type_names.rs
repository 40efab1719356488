//! The types that the source names.

use vstd::prelude::*;

use crate::module::{Module, ModuleView};
use crate::types::{outcome, MathError, MathErrorView, Type};

verus! {

/// The type that a name of the source stands for: one of the three built-in
/// types, else the address of a struct of that name. A name that is none of
/// these is undefined.
pub open spec fn named_type(module: ModuleView, name: Seq<char>) -> Result<Type, MathErrorView> {
    if name == "float"@ {
        Ok(Type::Float(0))
    } else if name == "int"@ {
        Ok(Type::Integer(0, 64))
    } else if name == "string"@ {
        Ok(Type::CString(0))
    } else {
        match module.find_struct(name) {
            Some(index) => Ok(Type::Struct(1, index as usize)),
            None => Err(MathErrorView::UndefinedVariable(name)),
        }
    }
}

fn is_name(name: &str, wanted: &str) -> (result: bool)
    ensures
        result == (name@ == wanted@),
{
    String::from_str(name) == String::from_str(wanted)
}

pub fn convert_type_name(module: &Module, name: &str) -> (result: Result<Type, MathError>)
    ensures
        outcome(result) == named_type(module@, name@),
{
    if is_name(name, "float") {
        Ok(Type::Float(0))
    } else if is_name(name, "int") {
        Ok(Type::Integer(0, 64))
    } else if is_name(name, "string") {
        Ok(Type::CString(0))
    } else {
        match module.type_table.index_of(name) {
            Some(index) => Ok(Type::Struct(1, index)),
            None => Err(MathError::UndefinedVariable(String::from_str(name))),
        }
    }
}

} // verus!
