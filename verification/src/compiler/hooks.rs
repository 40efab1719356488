//! How often a block calls a function. By these laws the hooks of the
//! runtime are called once where an instrumented function begins and once
//! where it returns, and not at all where no prediction is pending.

use vstd::prelude::*;

use crate::bitcode::{lemma_call_keeps_signatures, same_signatures};
use crate::block::{Block, InstructionView, Opcode, TerminalInstruction, Value, ValueRef};
use crate::compiler::compile::ContextView;
use crate::function_table::{find_function, FunctionView};
use crate::math::{immediate_integer, lemma_resolve_keeps_terminals};
use crate::module::{lemma_emit_keeps_terminals, ModuleView};
use crate::types::Type;

verus! {

/// How many of the instructions are calls of the function at position
/// `callee`.
pub open spec fn calls_in(instructions: Seq<InstructionView>, callee: usize) -> nat
    decreases instructions.len(),
{
    if instructions.len() == 0 {
        0
    } else {
        calls_in(instructions.drop_last(), callee) + if instructions.last().opcode == Opcode::Call(
            callee,
        ) {
            1nat
        } else {
            0nat
        }
    }
}

impl ModuleView {
    /// How often `block` calls the function at position `callee`.
    pub open spec fn calls(self, block: Block, callee: usize) -> nat {
        calls_in(self.block(block).instructions, callee)
    }
}

/// A function that is found stands in the table, under the name it was
/// looked up by.
pub proof fn lemma_found_is_there(functions: Seq<FunctionView>, name: Seq<char>)
    ensures
        find_function(functions, name) matches Some(at) ==> 0 <= at < functions.len()
            && functions[at].name == name,
    decreases functions.len(),
{
    if functions.len() > 0 && functions.last().name != name {
        lemma_found_is_there(functions.drop_last(), name);
    }
}

/// An instruction appended to a block is one more call of a function in
/// that block if it calls the function, and changes nothing else.
pub proof fn lemma_emit_calls(
    module: ModuleView,
    block: Block,
    instruction: InstructionView,
    other: Block,
    callee: usize,
)
    requires
        module.has_block(block),
        module.has_block(other),
    ensures
        module.emit(block, instruction).terminals() == module.terminals(),
        module.emit(block, instruction).calls(other, callee) == module.calls(other, callee) + if other
            == block && instruction.opcode == Opcode::Call(callee) {
            1nat
        } else {
            0nat
        },
{
    lemma_emit_keeps_terminals(module, block, instruction);
    let after = module.emit(block, instruction);
    assert(module.functions.len() == module.terminals().len());
    assert(module.functions[block.parent as int].blocks.len()
        == module.terminals()[block.parent as int].len());
    assert(module.functions[other.parent as int].blocks.len()
        == module.terminals()[other.parent as int].len());
    if other == block {
        assert(after.block(block).instructions == module.block(block).instructions.push(
            instruction,
        ));
        assert(after.block(block).instructions.drop_last() =~= module.block(block).instructions);
    } else {
        assert(after.block(other) == module.block(other));
    }
}

/// Reading through an address and converting call nothing.
pub proof fn lemma_resolve_calls_nothing(
    module: ModuleView,
    block: Block,
    value: Value,
    to: Type,
    other: Block,
    callee: usize,
)
    requires
        module.has_block(block),
        module.has_block(other),
    ensures
        module.resolve_value(block, value).0.terminals() == module.terminals(),
        module.resolve_value(block, value).0.calls(other, callee) == module.calls(other, callee),
        module.math_resolve_value(block, value, to).0.terminals() == module.terminals(),
        module.math_resolve_value(block, value, to).0.calls(other, callee) == module.calls(
            other,
            callee,
        ),
{
    lemma_resolve_keeps_terminals(module, block, value, to);
    lemma_emit_calls(
        module,
        block,
        InstructionView::unary(Opcode::Load, value.type_enum.resolved(), value.value),
        other,
        callee,
    );
    let (resolved, read) = module.resolve_value(block, value);
    lemma_emit_calls(
        resolved,
        block,
        ModuleView::conversion(read.type_enum, to, read.value),
        other,
        callee,
    );
}

/// Storing to an array calls nothing.
pub proof fn lemma_store_calls_nothing(
    module: ModuleView,
    block: Block,
    array: Value,
    index: usize,
    value: Value,
    other: Block,
    callee: usize,
)
    requires
        module.has_block(block),
        module.has_block(other),
    ensures
        module.add_store_to_array(block, array, index, value).0.terminals() == module.terminals(),
        module.add_store_to_array(block, array, index, value).0.calls(other, callee)
            == module.calls(other, callee),
{
    lemma_resolve_calls_nothing(module, block, value, Type::Float(0), other, callee);
    let (after, stored) = module.math_resolve_value(block, value, Type::Float(0));
    let address = InstructionView::unary(Opcode::ElementAddress(index), Type::Float(1), array.value);
    lemma_emit_calls(after, block, address, other, callee);
    lemma_emit_calls(
        after.emit(block, address),
        block,
        InstructionView::binary(Opcode::Store, Type::Void, stored.value, after.next_value(block)),
        other,
        callee,
    );
}

/// Packing the arguments of a function calls nothing.
pub proof fn lemma_store_arguments_call_nothing(
    module: ModuleView,
    entry: Block,
    array: Value,
    types: Seq<Type>,
    count: int,
    other: Block,
    callee: usize,
)
    requires
        module.has_block(entry),
        module.has_block(other),
    ensures
        module.store_arguments(entry, array, types, count).0.terminals() == module.terminals(),
        module.store_arguments(entry, array, types, count).0.calls(other, callee) == module.calls(
            other,
            callee,
        ),
    decreases count,
{
    if count > 0 {
        lemma_store_arguments_call_nothing(module, entry, array, types, count - 1, other, callee);
        let (before, result) = module.store_arguments(entry, array, types, count - 1);
        if result is Ok {
            lemma_store_calls_nothing(
                before,
                entry,
                array,
                (count - 1) as usize,
                FunctionView::arguments(entry.parent, types)[count - 1],
                other,
                callee,
            );
        }
    }
}

/// Bringing the arguments of a call to the parameters' types calls
/// nothing, and gives one operand for each argument.
pub proof fn lemma_resolve_arguments_call_nothing(
    module: ModuleView,
    block: Block,
    args: Seq<Value>,
    types: Seq<Type>,
    other: Block,
    callee: usize,
)
    requires
        module.has_block(block),
        module.has_block(other),
    ensures
        module.resolve_arguments(block, args, types).0.terminals() == module.terminals(),
        module.resolve_arguments(block, args, types).0.functions.len() == module.functions.len(),
        module.resolve_arguments(block, args, types).0.calls(other, callee) == module.calls(
            other,
            callee,
        ),
        module.resolve_arguments(block, args, types).1.len() == args.len(),
    decreases args.len(),
{
    if args.len() > 0 {
        lemma_resolve_arguments_call_nothing(
            module,
            block,
            args.drop_last(),
            types.drop_last(),
            other,
            callee,
        );
        let (before, operands) = module.resolve_arguments(
            block,
            args.drop_last(),
            types.drop_last(),
        );
        lemma_resolve_calls_nothing(before, block, args.last(), types.last(), other, callee);
        assert(before.math_resolve_value(block, args.last(), types.last()).0.functions.len()
            == before.math_resolve_value(
            block,
            args.last(),
            types.last(),
        ).0.terminals().len());
        assert(module.functions.len() == module.terminals().len());
    }
}

/// What a call of the function at position `function` hands over: the
/// arguments brought to the parameters' types where the function checks
/// its arguments, else the arguments as they are.
pub open spec fn handed_over(module: ModuleView, block: Block, function: int, args: Seq<Value>) -> Seq<
    ValueRef,
> {
    if module.functions[function].check_arguments {
        module.resolve_arguments(block, args, module.functions[function].argument_types).1
    } else {
        args.map_values(|value: Value| value.value)
    }
}

/// A call appended to a block is exactly one call in that block, of the
/// function it names, and it stands last, with one operand for each
/// argument; its result is what the call yields.
pub proof fn lemma_call_is_one_call(
    module: ModuleView,
    block: Block,
    function: usize,
    args: Seq<Value>,
    other: Block,
    callee: usize,
)
    requires
        module.has_block(block),
        module.has_block(other),
    ensures
        ({
            let (after, result) = module.add_function_call(block, function as int, args);
            let call = after.block(block).instructions.last();
            &&& after.terminals() == module.terminals()
            &&& after.calls(other, callee) == module.calls(other, callee) + if other == block
                && function == callee {
                1nat
            } else {
                0nat
            }
            &&& after.block(block).instructions.len() > 0
            &&& call.opcode == Opcode::Call(function)
            &&& call.operands == handed_over(module, block, function as int, args)
            &&& call.operands.len() == args.len()
            &&& result.value == (ValueRef::Instruction {
                block,
                index: (after.block(block).instructions.len() - 1) as usize,
            })
        }),
{
    let target = module.functions[function as int];
    lemma_resolve_arguments_call_nothing(module, block, args, target.argument_types, other, callee);
    let (resolved, operands) = if target.check_arguments {
        module.resolve_arguments(block, args, target.argument_types)
    } else {
        (module, args.map_values(|value: Value| value.value))
    };
    let call = InstructionView {
        opcode: Opcode::Call(function),
        type_enum: target.return_type,
        operands,
        blocks: seq![],
    };
    lemma_emit_calls(resolved, block, call, other, callee);
    assert(resolved.functions.len() == resolved.terminals().len());
    assert(resolved.functions[block.parent as int].blocks.len()
        == resolved.terminals()[block.parent as int].len());
    assert(resolved.emit(block, call).block(block).instructions == resolved.block(
        block,
    ).instructions.push(call));
}

/// The address of a constant string is taken without a call.
pub proof fn lemma_string_calls_nothing(
    module: ModuleView,
    block: Block,
    string: Seq<char>,
    other: Block,
    callee: usize,
)
    requires
        module.has_block(block),
        module.has_block(other),
    ensures
        module.create_global_string(block, string).0.terminals() == module.terminals(),
        module.create_global_string(block, string).0.calls(other, callee) == module.calls(
            other,
            callee,
        ),
{
    let named = module.with_string(string);
    assert(named.terminals() =~~= module.terminals());
    lemma_emit_calls(
        named,
        block,
        InstructionView::nullary(Opcode::GlobalString(module.strings.len() as usize), Type::CString(0)),
        other,
        callee,
    );
}

/// An instrumented function calls the begin hook exactly once where its
/// body begins, whatever the hook is declared to take: the call stands
/// last in the entry block, behind the packing of the arguments, with two
/// operands, which stand for the function's name and for the packed
/// arguments; what it yields is the pending prediction; and no other block
/// gets a call.
pub proof fn lemma_begin_hook_called_once(
    context: ContextView,
    types: Seq<Type>,
    count: int,
    other: Block,
    callee: usize,
)
    requires
        context.current_block matches Some(entry) && context.module.has_block(entry),
        context.module.has_block(other),
        context.module.functions.len() <= usize::MAX,
        0 <= count <= usize::MAX,
        context.instrument(types, count).1 is Ok,
    ensures
        ({
            let entry = context.current_block.unwrap();
            let after = context.instrument(types, count).0;
            let call = after.module.block(entry).instructions.last();
            &&& context.module.find_function(context.airt_handle_function_call) matches Some(hook)
                && after.module.calls(other, callee) == context.module.calls(other, callee)
                + if other == entry && callee == hook {
                1nat
            } else {
                0nat
            } && call.opcode == Opcode::Call(hook as usize) && call.operands == handed_over(
                context.named_at_entry(types, count).0,
                entry,
                hook,
                seq![
                    context.named_at_entry(types, count).1,
                    context.module.add_immutable_array(entry, count as usize).1,
                ],
            )
            &&& call.operands.len() == 2
            &&& after.module.terminals() == context.module.terminals()
            &&& after.prediction_index matches Some(index) && index.value
                == (ValueRef::Instruction {
                block: entry,
                index: (after.module.block(entry).instructions.len() - 1) as usize,
            })
            &&& after.current_block == context.current_block
            &&& after.current_function == context.current_function
        }),
{
    let entry = context.current_block.unwrap();
    let name = context.current_function.unwrap();
    lemma_found_is_there(context.module.functions, context.airt_handle_function_call);
    let hook = context.module.find_function(context.airt_handle_function_call).unwrap();
    let (packed, array) = context.module.add_immutable_array(entry, count as usize);
    lemma_emit_calls(
        context.module,
        entry,
        InstructionView::nullary(Opcode::Allocate, Type::FloatArray(count as usize)),
        other,
        callee,
    );
    lemma_store_arguments_call_nothing(packed, entry, array, types, count, other, callee);
    let (stored, result) = packed.store_arguments(entry, array, types, count);
    lemma_string_calls_nothing(stored, entry, name, other, callee);
    let (named, text) = stored.create_global_string(entry, name);
    lemma_call_is_one_call(named, entry, hook as usize, seq![text, array], other, callee);
}

/// Where a prediction is pending, a return calls the finish hook exactly
/// once, whatever the hook is declared to take: the call stands last in
/// the cursor's block, with two operands, which stand for the function's
/// name and for the pending prediction; no other block gets a call, and no
/// terminal changes.
pub proof fn lemma_finish_hook_called_once(context: ContextView, other: Block, callee: usize)
    requires
        context.current_block matches Some(block) && context.module.has_block(block),
        context.module.has_block(other),
        context.module.functions.len() <= usize::MAX,
        context.prediction_index is Some,
        context.add_finish_function_call().1 is Ok,
    ensures
        ({
            let block = context.current_block.unwrap();
            let after = context.add_finish_function_call().0;
            let call = after.module.block(block).instructions.last();
            &&& context.module.find_function(context.airt_finish_function_call) matches Some(hook)
                && after.module.calls(other, callee) == context.module.calls(other, callee)
                + if other == block && callee == hook {
                1nat
            } else {
                0nat
            } && call.opcode == Opcode::Call(hook as usize) && call.operands == handed_over(
                context.module.create_global_string(block, context.current_function.unwrap()).0,
                block,
                hook,
                seq![
                    context.module.create_global_string(block, context.current_function.unwrap()).1,
                    context.prediction_index.unwrap(),
                ],
            )
            &&& call.operands.len() == 2
            &&& after.module.terminals() == context.module.terminals()
            &&& after.current_block == context.current_block
            &&& after.prediction_index == context.prediction_index
        }),
{
    let block = context.current_block.unwrap();
    let name = context.current_function.unwrap();
    let index = context.prediction_index.unwrap();
    lemma_found_is_there(context.module.functions, context.airt_finish_function_call);
    let hook = context.module.find_function(context.airt_finish_function_call).unwrap();
    lemma_string_calls_nothing(context.module, block, name, other, callee);
    let (named, text) = context.module.create_global_string(block, name);
    lemma_call_is_one_call(named, block, hook as usize, seq![text, index], other, callee);
}

impl ContextView {
    /// The module in which an instrumented function calls the begin hook,
    /// and the function's name in it as a constant string: the arguments
    /// have been packed into an array in the entry block, and the address
    /// of the name has been taken there.
    pub open spec fn named_at_entry(self, types: Seq<Type>, count: int) -> (ModuleView, Value) {
        let entry = self.current_block.unwrap();
        let (packed, array) = self.module.add_immutable_array(entry, count as usize);
        packed.store_arguments(entry, array, types, count).0.create_global_string(
            entry,
            self.current_function.unwrap(),
        )
    }

    /// How many calls of the function at position `callee` a return at the
    /// cursor makes: one of the finish hook where a prediction is pending,
    /// and no other.
    pub open spec fn calls_at_return(self, callee: usize) -> nat {
        if self.prediction_index is Some && self.module.find_function(
            self.airt_finish_function_call,
        ) == Some(callee as int) {
            1
        } else {
            0
        }
    }
}

/// Before a return the finish hook is called once where a prediction is
/// pending, and nothing else is called; where no prediction is pending
/// nothing is called at all.
pub proof fn lemma_return_calls_finish_hook(context: ContextView, callee: usize)
    requires
        context.current_block matches Some(block) && context.module.has_block(block),
        context.module.functions.len() <= usize::MAX,
        context.add_finish_function_call().1 is Ok,
    ensures
        ({
            let block = context.current_block.unwrap();
            let after = context.add_finish_function_call().0;
            after.module.calls(block, callee) == context.module.calls(block, callee)
                + context.calls_at_return(callee)
        }),
{
    if context.prediction_index is Some {
        lemma_finish_hook_called_once(context, context.current_block.unwrap(), callee);
    }
}

/// A terminal is no call: a block calls what it called before it got one.
pub proof fn lemma_terminal_calls_nothing(
    module: ModuleView,
    block: Block,
    terminal: TerminalInstruction,
    callee: usize,
)
    requires
        module.has_block(block),
    ensures
        module.with_terminal(block, terminal).calls(block, callee) == module.calls(block, callee),
{
    assert(module.functions.len() == module.terminals().len());
    assert(module.functions[block.parent as int].blocks.len()
        == module.terminals()[block.parent as int].len());
}

/// The return of a value is no call.
pub proof fn lemma_return_calls_nothing(module: ModuleView, block: Block, value: Value, callee: usize)
    requires
        module.has_block(block),
    ensures
        module.add_return(block, value).calls(block, callee) == module.calls(block, callee),
{
    lemma_resolve_calls_nothing(module, block, value, Type::Void, block, callee);
    let (resolved, read) = module.resolve_value(block, value);
    lemma_terminal_calls_nothing(
        resolved,
        block,
        TerminalInstruction::Return { value: read.value },
        callee,
    );
}

/// A learned value calls the predictor for its type exactly once, whether
/// or not a prediction is pending, and calls nothing else; and the function
/// being compiled holds one more learned value, which is what the call
/// yields.
pub proof fn lemma_learned_value_calls_predictor(context: ContextView, target: Type, callee: usize)
    requires
        context.current_block matches Some(block) && context.module.has_block(block),
        context.module.functions.len() <= usize::MAX,
        context.compile_learned_value(target).1 is Ok,
    ensures
        ({
            let block = context.current_block.unwrap();
            let (after, value) = context.compile_learned_value(target);
            let learned = after.module.functions[block.parent as int].learned_values;
            &&& context.module.find_function(context.predictor(target)) matches Some(hook)
                && after.module.calls(block, callee) == context.module.calls(block, callee)
                + if callee == hook {
                1nat
            } else {
                0nat
            } && after.module.block(block).instructions.last().opcode == Opcode::Call(
                hook as usize,
            )
            &&& after.module.terminals() == context.module.terminals()
            &&& learned == context.module.functions[block.parent as int].learned_values.push(
                value->Ok_0,
            )
            &&& after.prediction_index == context.prediction_index
        }),
{
    let block = context.current_block.unwrap();
    let name = context.current_function.unwrap();
    lemma_found_is_there(context.module.functions, context.predictor(target));
    let hook = context.module.find_function(context.predictor(target)).unwrap();
    lemma_string_calls_nothing(context.module, block, name, block, callee);
    let (named, text) = context.module.create_global_string(block, name);
    let args = seq![text, immediate_integer(0), immediate_integer(0)];
    lemma_call_is_one_call(named, block, hook as usize, args, block, callee);
    let (called, value) = named.add_function_call(block, hook as int, args);
    let after = called.with_learned_value(block.parent as int, value);
    assert(same_signatures(context.module, named));
    lemma_call_keeps_signatures(named, block, hook, args);
    assert(called.functions.len() == called.terminals().len());
    assert(called.functions[block.parent as int].blocks.len()
        == called.terminals()[block.parent as int].len());
    assert(after.terminals() =~~= called.terminals());
    assert(after.block(block) == called.block(block));
}

} // verus!
