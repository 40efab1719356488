//! The type system: value and pointer types, promotion of operand types,
//! and compatibility of an argument with a declared parameter.

use vstd::prelude::*;

verus! {

/// Width of an integer type in bits.
pub type Bits = u32;

/// Pointer depth of a type: 0 is a value, 1 the address of a value, and so on.
pub type Pointers = u8;

#[derive(Clone, Copy, Debug, PartialEq, Eq, Structural)]
pub enum Type {
    CString(Pointers),
    Float(Pointers),
    FloatArray(usize),
    Integer(Pointers, Bits),
    Struct(Pointers, usize),
    Void,
}

impl Default for Type {
    fn default() -> (result: Self)
        ensures
            result == Type::Void,
    {
        Type::Void
    }
}

impl Type {
    /// The pointer depth of a type. A fixed-size array counts as one level of
    /// indirection, `Void` as none.
    pub open spec fn pointer_number(self) -> int {
        match self {
            Type::CString(number) => number as int,
            Type::Float(number) => number as int,
            Type::FloatArray(_) => 1,
            Type::Integer(number, _) => number as int,
            Type::Struct(number, _) => number as int,
            Type::Void => 0,
        }
    }

    /// Whether the type stores its pointer depth, so that the depth can change.
    pub open spec fn carries_pointer_number(self) -> bool {
        !(self is FloatArray) && !(self is Void)
    }

    /// The type with pointer depth `depth` where it stores one, else unchanged.
    pub open spec fn with_pointer_number(self, depth: Pointers) -> Type {
        match self {
            Type::CString(_) => Type::CString(depth),
            Type::Float(_) => Type::Float(depth),
            Type::FloatArray(size) => Type::FloatArray(size),
            Type::Integer(_, bits) => Type::Integer(depth, bits),
            Type::Struct(_, index) => Type::Struct(depth, index),
            Type::Void => Type::Void,
        }
    }

    /// The value type behind any number of pointers.
    pub open spec fn pointee(self) -> Type {
        self.with_pointer_number(0)
    }

    /// The type with its bit width forgotten; only integers have one.
    pub open spec fn without_bits(self) -> Type {
        match self {
            Type::Integer(number, _) => Type::Integer(number, 0),
            _ => self,
        }
    }

    /// Taking the address of a value: one more level of indirection.
    pub fn increment_pointer_number(self) -> (result: Self)
        requires
            self.carries_pointer_number() ==> self.pointer_number() < Pointers::MAX,
        ensures
            self.carries_pointer_number() ==> result == self.with_pointer_number(
                (self.pointer_number() + 1) as Pointers,
            ),
            !self.carries_pointer_number() ==> result == self,
    {
        match self {
            Type::CString(p) => Type::CString(p + 1),
            Type::Float(p) => Type::Float(p + 1),
            Type::FloatArray(size) => Type::FloatArray(size),
            Type::Integer(p, bits) => Type::Integer(p + 1, bits),
            Type::Struct(p, index) => Type::Struct(p + 1, index),
            Type::Void => Type::Void,
        }
    }

    pub fn get_pointer_number(self) -> (result: Pointers)
        ensures
            result as int == self.pointer_number(),
    {
        match self {
            Type::CString(number) => number,
            Type::Float(number) => number,
            Type::FloatArray(_) => 1,
            Type::Integer(number, _) => number,
            Type::Struct(number, _) => number,
            Type::Void => 0,
        }
    }

    pub fn zero_pointer_number(self) -> (result: Self)
        ensures
            result == self.pointee(),
    {
        match self {
            Type::CString(_) => Type::CString(0),
            Type::Float(_) => Type::Float(0),
            Type::FloatArray(size) => Type::FloatArray(size),
            Type::Integer(_, bits) => Type::Integer(0, bits),
            Type::Struct(_, index) => Type::Struct(0, index),
            Type::Void => Type::Void,
        }
    }

    pub fn zero_bits(self) -> (result: Self)
        ensures
            result == self.without_bits(),
    {
        match self {
            Type::Integer(pointer_number, _) => Type::Integer(pointer_number, 0),
            other => other,
        }
    }

    /// The array type of `size` elements of this element type. Only floats
    /// have an array type.
    pub fn to_array(self, size: usize) -> (result: Self)
        requires
            self is Float,
        ensures
            result == Type::FloatArray(size),
    {
        Type::FloatArray(size)
    }

    /// The element type of an array type.
    pub fn to_scalar(self) -> (result: Self)
        requires
            self is FloatArray,
        ensures
            result == Type::Float(0),
    {
        Type::Float(0)
    }

    /// Whether a value of type `self` may be handed to a parameter declared
    /// as `other`: the types are equal, or both are floats at any depth, or
    /// both are integers of one width at any depth, or `self` is an array and
    /// `other` the address of a float.
    pub open spec fn compatible(self, other: Type) -> bool {
        ||| self == other
        ||| (self is Float && other is Float)
        ||| (self is FloatArray && other == Type::Float(1))
        ||| (self matches Type::Integer(_, bits1) && other matches Type::Integer(_, bits2) && bits1
            == bits2)
    }

    /// Whether or not this type can be converted to another type.
    pub fn is_compatible(&self, other: &Type) -> (result: bool)
        ensures
            result == self.compatible(*other),
    {
        if *self == *other {
            return true;
        }
        match *self {
            Type::Float(_) => match *other {
                Type::Float(_) => true,
                _ => false,
            },
            Type::FloatArray(_) => match *other {
                Type::Float(pointer) => pointer == 1,
                _ => false,
            },
            Type::Integer(_, bits1) => match *other {
                Type::Integer(_, bits2) => bits1 == bits2,
                _ => false,
            },
            _ => false,
        }
    }
}

} // verus!

verus! {

/// Why an expression or a statement could not be compiled.
#[derive(Clone, Debug)]
pub enum MathError {
    /// The two types cannot be brought to a common type.
    IncompatibleTypes(Type, Type),
    /// No variable or function of that name is visible.
    UndefinedVariable(String),
    /// The operation is not defined on operands of that type.
    UnsupportedOperation,
    /// A call hands over another number of arguments than were declared.
    ArityMismatch,
    /// A node of the parse tree has no form that the compiler knows.
    UnknownSyntaxForm,
}

pub enum MathErrorView {
    IncompatibleTypes(Type, Type),
    UndefinedVariable(Seq<char>),
    UnsupportedOperation,
    ArityMismatch,
    UnknownSyntaxForm,
}

impl View for MathError {
    type V = MathErrorView;

    open spec fn view(&self) -> MathErrorView {
        match self {
            MathError::IncompatibleTypes(first, second) => MathErrorView::IncompatibleTypes(
                *first,
                *second,
            ),
            MathError::UndefinedVariable(name) => MathErrorView::UndefinedVariable(name@),
            MathError::UnsupportedOperation => MathErrorView::UnsupportedOperation,
            MathError::ArityMismatch => MathErrorView::ArityMismatch,
            MathError::UnknownSyntaxForm => MathErrorView::UnknownSyntaxForm,
        }
    }
}

impl PartialEq for MathError {
    fn eq(&self, other: &Self) -> (result: bool) {
        match (self, other) {
            (
                MathError::IncompatibleTypes(first, second),
                MathError::IncompatibleTypes(third, fourth),
            ) => *first == *third && *second == *fourth,
            (MathError::UndefinedVariable(name), MathError::UndefinedVariable(wanted)) => *name
                == *wanted,
            (MathError::UnsupportedOperation, MathError::UnsupportedOperation) => true,
            (MathError::ArityMismatch, MathError::ArityMismatch) => true,
            (MathError::UnknownSyntaxForm, MathError::UnknownSyntaxForm) => true,
            _ => false,
        }
    }
}

impl Eq for MathError {

}

impl vstd::std_specs::cmp::PartialEqSpecImpl for MathError {
    open spec fn obeys_eq_spec() -> bool {
        true
    }

    open spec fn eq_spec(&self, other: &Self) -> bool {
        self@ == other@
    }
}

/// A result with its error taken by its view.
pub open spec fn outcome<T>(result: Result<T, MathError>) -> Result<T, MathErrorView> {
    match result {
        Ok(value) => Ok(value),
        Err(error) => Err(error@),
    }
}

} // verus!

verus! {

impl Type {
    /// Whether a value of this type is an address that an operation reads
    /// through before it works on the value: a float or an integer behind at
    /// least one pointer.
    pub open spec fn loads(self) -> bool {
        (self is Float || self is Integer) && self.pointer_number() > 0
    }

    /// The type of what a value of this type resolves to: one pointer less
    /// where it `loads`, else the type itself.
    pub open spec fn resolved(self) -> Type {
        if self.loads() {
            self.with_pointer_number((self.pointer_number() - 1) as Pointers)
        } else {
            self
        }
    }

    /// Whether a value of this type stands for a value of type `to` as it
    /// is: the types are equal, or both are floats.
    pub open spec fn stands_for(self, to: Type) -> bool {
        self == to || (self is Float && to is Float)
    }

    /// Whether a value of this type can be converted to `to`: it stands for
    /// one as it is, or a float becomes an integer, or an integer becomes a
    /// float or an integer that is at least as wide.
    pub open spec fn convertible(self, to: Type) -> bool {
        ||| self.stands_for(to)
        ||| (self is Float && to is Integer)
        ||| (self is Integer && to is Float)
        ||| (self matches Type::Integer(_, bits1) && to matches Type::Integer(_, bits2) && bits1
            <= bits2)
    }

    /// The type of a value of this type after its conversion to `to`: it
    /// takes the kind and width of `to` and keeps its own pointer depth.
    pub open spec fn converted(self, to: Type) -> Type {
        if self.stands_for(to) {
            self
        } else {
            match to {
                Type::Integer(_, bits) => Type::Integer(self.pointer_number() as Pointers, bits),
                Type::Float(_) => Type::Float(self.pointer_number() as Pointers),
                _ => to,
            }
        }
    }

    /// The common type of the operands of a binary operation: for two
    /// integers the integer of the wider width; else, where the types agree
    /// but for pointer depth, that type; else, where either is a float,
    /// float. All at pointer depth 0. Any other pair has no common type.
    pub open spec fn aliased(self, other: Type) -> Result<Type, MathErrorView> {
        if self is Integer && other is Integer {
            Ok(Type::Integer(0, if self->Integer_1 >= other->Integer_1 {
                self->Integer_1
            } else {
                other->Integer_1
            }))
        } else if self.pointee() == other.pointee() {
            Ok(self.pointee())
        } else if self is Float || other is Float {
            Ok(Type::Float(0))
        } else {
            Err(MathErrorView::IncompatibleTypes(self, other))
        }
    }

    /// Whether a value of this type can decide a branch: it is a number.
    pub open spec fn decides(self) -> bool {
        self is Float || self is Integer
    }

    pub fn can_decide(self) -> (result: bool)
        ensures
            result == self.decides(),
    {
        match self {
            Type::Float(_) => true,
            Type::Integer(_, _) => true,
            _ => false,
        }
    }

    pub fn is_loaded(self) -> (result: bool)
        ensures
            result == self.loads(),
    {
        match self {
            Type::Float(number) => number > 0,
            Type::Integer(number, _) => number > 0,
            _ => false,
        }
    }

    pub fn to_resolved(self) -> (result: Type)
        ensures
            result == self.resolved(),
    {
        match self {
            Type::Float(number) => if number > 0 {
                Type::Float(number - 1)
            } else {
                self
            },
            Type::Integer(number, bits) => if number > 0 {
                Type::Integer(number - 1, bits)
            } else {
                self
            },
            _ => self,
        }
    }

    pub fn can_convert_to(self, to: Type) -> (result: bool)
        ensures
            result == self.convertible(to),
    {
        if self == to {
            return true;
        }
        match self {
            Type::Float(_) => match to {
                Type::Integer(_, _) => true,
                Type::Float(_) => true,
                _ => false,
            },
            Type::Integer(_, bits1) => match to {
                Type::Integer(_, bits2) => bits1 <= bits2,
                Type::Float(_) => true,
                _ => false,
            },
            _ => false,
        }
    }

    pub fn can_stand_for(self, to: Type) -> (result: bool)
        ensures
            result == self.stands_for(to),
    {
        if self == to {
            return true;
        }
        match self {
            Type::Float(_) => match to {
                Type::Float(_) => true,
                _ => false,
            },
            _ => false,
        }
    }
}

} // verus!
