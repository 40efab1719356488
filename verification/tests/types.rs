use ai_dsl2_compiler::module::Module;
use ai_dsl2_compiler::types::{MathError, Type};

#[test]
fn alias_of_two_integers_is_the_wider() {
    let module = Module::new("main");
    let result = module.math_type_aliasing(Type::Integer(0, 32), Type::Integer(0, 64));
    assert!(matches!(result, Ok(Type::Integer(0, 64))));
    let result = module.math_type_aliasing(Type::Integer(3, 64), Type::Integer(1, 8));
    assert!(matches!(result, Ok(Type::Integer(0, 64))));
}

#[test]
fn alias_of_integer_and_float_is_float() {
    let module = Module::new("main");
    let result = module.math_type_aliasing(Type::Integer(0, 64), Type::Float(0));
    assert!(matches!(result, Ok(Type::Float(0))));
    let result = module.math_type_aliasing(Type::Float(1), Type::Integer(0, 64));
    assert!(matches!(result, Ok(Type::Float(0))));
}

#[test]
fn alias_of_string_and_integer_is_refused() {
    let module = Module::new("main");
    let result = module.math_type_aliasing(Type::CString(0), Type::Integer(0, 64));
    assert!(matches!(
        result,
        Err(MathError::IncompatibleTypes(Type::CString(0), Type::Integer(0, 64)))
    ));
}

#[test]
fn alias_ignores_pointer_depth() {
    let module = Module::new("main");
    let result = module.math_type_aliasing(Type::CString(2), Type::CString(0));
    assert!(matches!(result, Ok(Type::CString(0))));
}

#[test]
fn pointer_numbers() {
    assert_eq!(Type::Float(0).increment_pointer_number(), Type::Float(1));
    assert_eq!(Type::Integer(1, 64).increment_pointer_number(), Type::Integer(2, 64));
    assert_eq!(Type::Void.increment_pointer_number(), Type::Void);
    assert_eq!(Type::FloatArray(4).increment_pointer_number(), Type::FloatArray(4));
    assert_eq!(Type::FloatArray(4).get_pointer_number(), 1);
    assert_eq!(Type::Void.get_pointer_number(), 0);
    assert_eq!(Type::Struct(1, 7).get_pointer_number(), 1);
    assert_eq!(Type::Integer(3, 8).zero_pointer_number(), Type::Integer(0, 8));
    assert_eq!(Type::Integer(3, 8).zero_bits(), Type::Integer(3, 0));
    assert_eq!(Type::Float(3).zero_bits(), Type::Float(3));
    assert_eq!(Type::Float(0).to_array(3), Type::FloatArray(3));
    assert_eq!(Type::FloatArray(3).to_scalar(), Type::Float(0));
    assert_eq!(Type::default(), Type::Void);
}

#[test]
fn compatibility_of_arguments() {
    assert!(Type::Float(0).is_compatible(&Type::Float(0)));
    assert!(Type::Float(1).is_compatible(&Type::Float(0)));
    assert!(Type::FloatArray(3).is_compatible(&Type::Float(1)));
    assert!(!Type::FloatArray(3).is_compatible(&Type::Float(0)));
    assert!(Type::Integer(1, 64).is_compatible(&Type::Integer(0, 64)));
    assert!(!Type::Integer(0, 32).is_compatible(&Type::Integer(0, 64)));
    assert!(!Type::CString(0).is_compatible(&Type::Float(0)));
    assert!(Type::CString(0).is_compatible(&Type::CString(0)));
}

#[test]
fn errors_are_equal_where_their_parts_are() {
    assert_eq!(MathError::UnsupportedOperation, MathError::UnsupportedOperation);
    assert_eq!(MathError::ArityMismatch, MathError::ArityMismatch.clone());
    assert_eq!(
        MathError::UndefinedVariable("x".to_string()),
        MathError::UndefinedVariable("x".to_string())
    );
    assert_ne!(
        MathError::UndefinedVariable("x".to_string()),
        MathError::UndefinedVariable("y".to_string())
    );
    assert_eq!(
        MathError::IncompatibleTypes(Type::Void, Type::Float(0)),
        MathError::IncompatibleTypes(Type::Void, Type::Float(0))
    );
    assert_ne!(
        MathError::IncompatibleTypes(Type::Void, Type::Float(0)),
        MathError::IncompatibleTypes(Type::Float(0), Type::Void)
    );
    assert_ne!(MathError::UnknownSyntaxForm, MathError::ArityMismatch);
}

#[test]
fn conversion_rules() {
    let int = Type::Integer(0, 64);
    assert!(Type::Float(0).can_convert_to(Type::Integer(0, 1)));
    assert!(int.can_convert_to(Type::Float(0)));
    assert!(Type::Integer(0, 32).can_convert_to(int));
    assert!(int.can_convert_to(int));
    assert!(!int.can_convert_to(Type::Integer(0, 32)));
    assert!(!Type::CString(0).can_convert_to(Type::Float(0)));
    assert!(!Type::Float(0).can_convert_to(Type::CString(0)));
    assert!(Type::Struct(1, 2).can_convert_to(Type::Struct(1, 2)));
    assert!(Type::Float(2).can_stand_for(Type::Float(0)));
    assert!(!int.can_stand_for(Type::Integer(1, 64)));
    assert!(Type::Float(1).is_loaded());
    assert!(!Type::Float(0).is_loaded());
    assert!(!Type::CString(1).is_loaded());
    assert_eq!(Type::Integer(2, 8).to_resolved(), Type::Integer(1, 8));
    assert_eq!(Type::Struct(1, 0).to_resolved(), Type::Struct(1, 0));
    assert!(int.is_storable());
    assert!(!Type::Integer(255, 64).is_storable());
    assert!(!Type::Void.is_storable());
    assert!(Type::Float(1).is_stored_to());
    assert!(!Type::Float(0).is_stored_to());
}
