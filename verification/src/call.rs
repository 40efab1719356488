//! Calls: the rules that hold a call to the declared parameters, and the
//! call instruction.

use vstd::prelude::*;

use crate::block::{Block, Instruction, InstructionView, Opcode, Value, ValueRef};
use crate::function_table::{FunctionKey, FunctionView};
use crate::module::{Module, ModuleView};
use crate::types::{outcome, MathError, MathErrorView, Type};

verus! {

/// Why the arguments from position `from` on cannot be handed to parameters
/// of these types, by the first argument that cannot: its type is not
/// compatible with the parameter's, or no conversion leads to it.
pub open spec fn argument_error(args: Seq<Value>, types: Seq<Type>, from: int) -> Option<
    MathErrorView,
>
    decreases args.len() - from,
{
    if from < 0 || from >= args.len() {
        None
    } else if !args[from].type_enum.compatible(types[from]) {
        Some(MathErrorView::IncompatibleTypes(args[from].type_enum, types[from]))
    } else if !args[from].type_enum.resolved().convertible(types[from]) {
        Some(MathErrorView::UnsupportedOperation)
    } else {
        argument_error(args, types, from + 1)
    }
}

/// Where no argument from `from` on is refused, each of them is compatible
/// with its parameter and converts to it.
pub proof fn lemma_argument_error_none(args: Seq<Value>, types: Seq<Type>, from: int, at: int)
    requires
        0 <= from <= at < args.len(),
        argument_error(args, types, from) is None,
    ensures
        args[at].type_enum.compatible(types[at]),
        args[at].type_enum.resolved().convertible(types[at]),
    decreases at - from,
{
    if from < at {
        lemma_argument_error_none(args, types, from + 1, at);
    }
}

impl FunctionView {
    /// Why a call of this function with these arguments is refused, if it
    /// is. A function that does not check its arguments takes any.
    pub open spec fn call_error(self, args: Seq<Value>) -> Option<MathErrorView> {
        if !self.check_arguments {
            None
        } else if args.len() != self.argument_types.len() {
            Some(MathErrorView::ArityMismatch)
        } else {
            argument_error(args, self.argument_types, 0)
        }
    }
}

impl ModuleView {
    /// The arguments brought to the parameters' types one after the other,
    /// each in the module that the one before left.
    pub open spec fn resolve_arguments(self, block: Block, args: Seq<Value>, types: Seq<Type>) -> (
        ModuleView,
        Seq<ValueRef>,
    )
        decreases args.len(),
    {
        if args.len() == 0 {
            (self, seq![])
        } else {
            let (before, operands) = self.resolve_arguments(
                block,
                args.drop_last(),
                types.drop_last(),
            );
            let (after, value) = before.math_resolve_value(block, args.last(), types.last());
            (after, operands.push(value.value))
        }
    }

    /// The module after a call of the function at position `function` was
    /// appended to `block`, and the call's result. Where the function checks
    /// its arguments they are brought to its parameters' types first; else
    /// they are handed over as they are.
    pub open spec fn add_function_call(self, block: Block, function: int, args: Seq<Value>) -> (
        ModuleView,
        Value,
    ) {
        let callee = self.functions[function];
        let (after, operands) = if callee.check_arguments {
            self.resolve_arguments(block, args, callee.argument_types)
        } else {
            (self, args.map_values(|value: Value| value.value))
        };
        (
            after.emit(
                block,
                InstructionView {
                    opcode: Opcode::Call(function as usize),
                    type_enum: callee.return_type,
                    operands,
                    blocks: seq![],
                },
            ),
            Value { type_enum: callee.return_type, value: after.next_value(block) },
        )
    }
}

fn copy_types(types: &Vec<Type>) -> (result: Vec<Type>)
    ensures
        result@ == types@,
{
    let mut result = Vec::new();
    let mut i: usize = 0;
    while i < types.len()
        invariant
            i <= types@.len(),
            result@ == types@.take(i as int),
        decreases types@.len() - i,
    {
        result.push(types[i]);
        proof {
            assert(result@ =~= types@.take(i + 1));
        }
        i += 1;
    }
    proof {
        assert(types@.take(i as int) =~= types@);
    }
    result
}

impl Module {
    /// Whether the function at position `function` takes these arguments.
    pub fn check_call(&self, function: usize, args: &Vec<Value>) -> (result: Result<(), MathError>)
        requires
            function < self@.functions.len(),
        ensures
            outcome(result) == match self@.functions[function as int].call_error(args@) {
                Some(error) => Err::<(), MathErrorView>(error),
                None => Ok(()),
            },
    {
        let callee = &self.function_table.functions[function];
        if !callee.check_arguments {
            return Ok(());
        }
        if args.len() != callee.argument_types.len() {
            return Err(MathError::ArityMismatch);
        }
        let mut i: usize = 0;
        while i < args.len()
            invariant
                i <= args@.len(),
                function < self@.functions.len(),
                callee@ == self@.functions[function as int],
                callee.check_arguments,
                args@.len() == callee.argument_types@.len(),
                argument_error(args@, callee.argument_types@, 0) == argument_error(
                    args@,
                    callee.argument_types@,
                    i as int,
                ),
            decreases args@.len() - i,
        {
            let argument = args[i].type_enum;
            let parameter = callee.argument_types[i];
            if !argument.is_compatible(&parameter) {
                return Err(MathError::IncompatibleTypes(argument, parameter));
            }
            if !argument.to_resolved().can_convert_to(parameter) {
                return Err(MathError::UnsupportedOperation);
            }
            i += 1;
        }
        Ok(())
    }

    /// Appends a call that the function at position `function` takes.
    pub(crate) fn emit_call(&mut self, block: Block, function: usize, args: &Vec<Value>) -> (result:
        Value)
        requires
            old(self)@.has_block(block),
            function < old(self)@.functions.len(),
            old(self)@.functions[function as int].call_error(args@) is None,
        ensures
            (final(self)@, result) == old(self)@.add_function_call(block, function as int, args@),
            final(self)@.terminals() == old(self)@.terminals(),
            old(self)@.wf() ==> final(self)@.wf(),
    {
        let ghost before = self@;
        let check_arguments = self.function_table.functions[function].check_arguments;
        let return_type = self.function_table.functions[function].return_type;
        let types = copy_types(&self.function_table.functions[function].argument_types);
        let mut operands: Vec<ValueRef> = Vec::new();
        let mut i: usize = 0;
        if check_arguments {
            proof {
                assert(args@.take(0) =~= seq![]);
            }
            while i < args.len()
                invariant
                    i <= args@.len(),
                    args@.len() == types@.len(),
                    before.has_block(block),
                    argument_error(args@, types@, 0) is None,
                    self@.terminals() == before.terminals(),
                    before.wf() ==> self@.wf(),
                    (self@, operands@) == before.resolve_arguments(
                        block,
                        args@.take(i as int),
                        types@.take(i as int),
                    ),
                decreases args@.len() - i,
            {
                proof {
                    lemma_argument_error_none(args@, types@, 0, i as int);
                    assert(args@.take(i + 1).drop_last() =~= args@.take(i as int));
                    assert(types@.take(i + 1).drop_last() =~= types@.take(i as int));
                }
                let value = self.math_resolve_value(block, args[i], types[i]);
                operands.push(value.value);
                i += 1;
            }
            proof {
                assert(args@.take(i as int) =~= args@);
                assert(types@.take(i as int) =~= types@);
            }
        } else {
            while i < args.len()
                invariant
                    i <= args@.len(),
                    operands@ == args@.take(i as int).map_values(|value: Value| value.value),
                decreases args@.len() - i,
            {
                operands.push(args[i].value);
                proof {
                    assert(operands@ =~= args@.take(i + 1).map_values(|value: Value| value.value));
                }
                i += 1;
            }
            proof {
                assert(args@.take(i as int) =~= args@);
            }
        }
        let call = Instruction {
            opcode: Opcode::Call(function),
            type_enum: return_type,
            operands,
            blocks: Vec::new(),
        };
        let value = self.emit(block, call);
        Value { type_enum: return_type, value }
    }

    /// Appends a call of the function at position `function` to `block`.
    /// A call that the function does not take is refused, and nothing is
    /// appended.
    fn add_function_call_at(&mut self, block: Block, function: usize, args: &Vec<Value>) -> (result:
        Result<Value, MathError>)
        requires
            old(self)@.has_block(block),
            function < old(self)@.functions.len(),
        ensures
            match old(self)@.functions[function as int].call_error(args@) {
                Some(error) => outcome(result) == Err::<Value, MathErrorView>(error) && final(self)@ == old(self)@,
                None => result matches Ok(value) && (final(self)@, value) == old(self)@.add_function_call(block, function as int, args@),
            },
            final(self)@.terminals() == old(self)@.terminals(),
            old(self)@.wf() ==> final(self)@.wf(),
    {
        match self.check_call(function, args) {
            Ok(_) => Ok(self.emit_call(block, function, args)),
            Err(error) => Err(error),
        }
    }

    /// Appends a call of the function that `function` finds to `block`.
    /// Where no function of that name is declared, or the function does not
    /// take the call, the call is refused and nothing is appended.
    pub fn add_function_call(&mut self, block: Block, function: &FunctionKey, args: &Vec<Value>) -> (result:
        Result<Value, MathError>)
        requires
            old(self)@.has_block(block),
        ensures
            match old(self)@.find_function(function@) {
                None => outcome(result) == Err::<Value, MathErrorView>(
                    MathErrorView::UndefinedVariable(function@),
                ) && final(self)@ == old(self)@,
                Some(index) => match old(self)@.functions[index].call_error(args@) {
                    Some(error) => outcome(result) == Err::<Value, MathErrorView>(error)
                        && final(self)@ == old(self)@,
                    None => result matches Ok(value) && (final(self)@, value) == old(self)@.add_function_call(block, index, args@),
                },
            },
            final(self)@.terminals() == old(self)@.terminals(),
            old(self)@.wf() ==> final(self)@.wf(),
    {
        match self.function_table.index_of(function) {
            Some(index) => self.add_function_call_at(block, index, args),
            None => Err(MathError::UndefinedVariable(function.name.clone())),
        }
    }
}

} // verus!
