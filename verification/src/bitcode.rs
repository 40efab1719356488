//! The last step before a module is written out: the program's entry point,
//! which hands the program to the runtime.

use vstd::prelude::*;

use crate::block::{Block, Instruction, InstructionView, Opcode, Value, ValueRef};
use crate::call::argument_error;
use crate::function_table::{Function, FunctionKey, FunctionView};
use crate::math::immediate_integer;
use crate::module::{Module, ModuleView};
use crate::types::{outcome, MathError, MathErrorView, Type};

verus! {

/// The name of the function that the program starts with.
pub open spec fn start_name() -> Seq<char> {
    "_main"@
}

/// The name of the function that the runtime calls for every step.
pub open spec fn tick_name() -> Seq<char> {
    "_tick"@
}

/// Whether every function that holds learned values has a parameter: the
/// runtime learns from the arguments.
pub open spec fn learners_take_arguments(functions: Seq<FunctionView>) -> bool {
    forall|i: int|
        0 <= i < functions.len() && (#[trigger] functions[i]).learned_values.len() > 0
            ==> functions[i].argument_types.len() > 0
}

impl ModuleView {
    /// Why the module cannot be given its entry point, if it cannot: it has
    /// no start or no tick function, the start function takes arguments, or
    /// a function without parameters holds learned values.
    pub open spec fn entry_error(self) -> Option<MathErrorView> {
        match (self.find_function(start_name()), self.find_function(tick_name())) {
            (None, _) => Some(MathErrorView::UndefinedVariable(start_name())),
            (Some(_), None) => Some(MathErrorView::UndefinedVariable(tick_name())),
            (Some(start), Some(_)) => match self.functions[start].call_error(seq![]) {
                Some(error) => Some(error),
                None => if learners_take_arguments(self.functions) {
                    None
                } else {
                    Some(MathErrorView::UnsupportedOperation)
                },
            },
        }
    }

    /// The module after the address of the function at position `function`
    /// was put into a slot on the stack and read back, and what was read.
    pub open spec fn function_value(self, block: Block, function: int) -> (ModuleView, Value) {
        let slot = self.next_value(block);
        let reserved = self.emit(block, InstructionView::nullary(Opcode::Allocate, Type::Void));
        let stored = reserved.emit(
            block,
            InstructionView::binary(
                Opcode::Store,
                Type::Void,
                ValueRef::Function { index: function as usize },
                slot,
            ),
        );
        (
            stored.emit(block, InstructionView::unary(Opcode::Load, Type::Void, slot)),
            Value { type_enum: Type::Void, value: stored.next_value(block) },
        )
    }

    /// The module after the first `count` of the names were made constant
    /// strings in `block`, and those strings.
    pub open spec fn name_all(self, block: Block, names: Seq<Seq<char>>, count: int) -> (
        ModuleView,
        Seq<Value>,
    )
        decreases count,
    {
        if count <= 0 {
            (self, seq![])
        } else {
            let (before, values) = self.name_all(block, names, count - 1);
            let (after, value) = before.create_global_string(block, names[count - 1]);
            (after, values.push(value))
        }
    }

    /// The arguments with which a function is registered: its name, the
    /// number of its parameters, and the number of its learned values.
    pub open spec fn registration(function: FunctionView, name: Value) -> Seq<Value> {
        seq![
            name,
            immediate_integer(function.argument_types.len() as u64),
            immediate_integer(function.learned_values.len() as u64),
        ]
    }

    /// The module after each of the first `count` of the functions that
    /// holds learned values was registered with the runtime, through the
    /// function at position `register`.
    pub open spec fn register_all(
        self,
        block: Block,
        register: int,
        functions: Seq<FunctionView>,
        names: Seq<Value>,
        count: int,
    ) -> ModuleView
        decreases count,
    {
        if count <= 0 {
            self
        } else {
            let before = self.register_all(block, register, functions, names, count - 1);
            if functions[count - 1].learned_values.len() > 0 {
                before.add_function_call(
                    block,
                    register,
                    Self::registration(functions[count - 1], names[count - 1]),
                ).0
            } else {
                before
            }
        }
    }

    /// The module with the declarations that the entry point needs: the
    /// three functions of the runtime, and the entry point with its block.
    pub open spec fn with_entry_declarations(self) -> ModuleView {
        self.declare_function(
            "airt_register_function"@,
            seq![Type::CString(0), Type::Integer(0, 64), Type::Integer(0, 64)],
            Type::Void,
            true,
        ).declare_function("airt_init"@, seq![], Type::Void, false).declare_function(
            "airt_train"@,
            seq![],
            Type::Void,
            true,
        ).declare_function("main"@, seq![], Type::Integer(0, 64), true).with_new_block(
            (self.functions.len() + 3) as int,
            "main"@,
        )
    }

    /// The module with its entry point. The entry point hands the start
    /// and the tick function to the runtime, registers every function that
    /// holds learned values, calls the start function, has the runtime
    /// train, and returns zero.
    pub open spec fn with_entry(self) -> ModuleView {
        let first = self.functions.len() as int;
        let block = Block { parent: (first + 3) as usize, index: 0 };
        let declared = self.with_entry_declarations();
        let (reset, reset_value) = declared.function_value(
            block,
            self.find_function(start_name()).unwrap(),
        );
        let (tick, tick_value) = reset.function_value(
            block,
            self.find_function(tick_name()).unwrap(),
        );
        let (initialized, _) = tick.add_function_call(
            block,
            first + 1,
            seq![reset_value, tick_value],
        );
        let functions = declared.functions;
        let (named, names) = initialized.name_all(
            block,
            functions.map_values(|function: FunctionView| function.name),
            functions.len() as int,
        );
        let registered = named.register_all(block, first, functions, names, functions.len() as int);
        let (started, _) = registered.add_function_call(
            block,
            self.find_function(start_name()).unwrap(),
            seq![],
        );
        let (trained, _) = started.add_function_call(block, first + 2, seq![]);
        trained.add_return(block, immediate_integer(0))
    }
}

/// What is read from the table before the entry point is built.
struct Entry {
    name: String,
    argument_count: usize,
    learned_count: usize,
}

impl Module {
    fn function_value(&mut self, block: Block, function: usize) -> (result: Value)
        requires
            old(self)@.has_block(block),
        ensures
            (final(self)@, result) == old(self)@.function_value(block, function as int),
            final(self)@.terminals() == old(self)@.terminals(),
            old(self)@.wf() ==> final(self)@.wf(),
    {
        let slot = self.emit(block, Instruction::nullary(Opcode::Allocate, Type::Void));
        self.emit(
            block,
            Instruction::binary(
                Opcode::Store,
                Type::Void,
                ValueRef::Function { index: function },
                slot,
            ),
        );
        let value = self.emit(block, Instruction::unary(Opcode::Load, Type::Void, slot));
        Value { type_enum: Type::Void, value }
    }

    fn learners_take_arguments(&self) -> (result: bool)
        ensures
            result == learners_take_arguments(self@.functions),
    {
        let mut i: usize = 0;
        while i < self.function_table.functions.len()
            invariant
                i <= self@.functions.len(),
                self@.functions.len() == self.function_table.functions@.len(),
                forall|j: int|
                    0 <= j < i && (#[trigger] self@.functions[j]).learned_values.len() > 0
                        ==> self@.functions[j].argument_types.len() > 0,
            decreases self@.functions.len() - i,
        {
            let function = &self.function_table.functions[i];
            proof {
                assert(function@ == self@.functions[i as int]);
            }
            if function.learned_values.len() > 0 && function.argument_types.len() == 0 {
                return false;
            }
            i += 1;
        }
        true
    }

    /// Whether the module can be given its entry point.
    pub fn check_entry(&self) -> (result: Result<(), MathError>)
        ensures
            outcome(result) == match self@.entry_error() {
                Some(error) => Err::<(), MathErrorView>(error),
                None => Ok(()),
            },
    {
        let start = match self.function_table.index_of(&FunctionKey::new("_main")) {
            Some(start) => start,
            None => { return Err(MathError::UndefinedVariable(String::from_str("_main"))); },
        };
        if self.function_table.index_of(&FunctionKey::new("_tick")).is_none() {
            return Err(MathError::UndefinedVariable(String::from_str("_tick")));
        }
        let nothing: Vec<Value> = Vec::new();
        proof {
            assert(nothing@ =~= seq![]);
        }
        match self.check_call(start, &nothing) {
            Ok(_) => {},
            Err(error) => { return Err(error); },
        }
        if self.learners_take_arguments() {
            Ok(())
        } else {
            Err(MathError::UnsupportedOperation)
        }
    }

    fn entries(&self) -> (result: Vec<Entry>)
        ensures
            result@.len() == self@.functions.len(),
            forall|i: int|
                0 <= i < result@.len() ==> (#[trigger] result@[i]).name@ == self@.functions[i].name
                    && result@[i].argument_count == self@.functions[i].argument_types.len()
                    && result@[i].learned_count == self@.functions[i].learned_values.len(),
    {
        let mut result: Vec<Entry> = Vec::new();
        let mut i: usize = 0;
        while i < self.function_table.functions.len()
            invariant
                i <= self@.functions.len(),
                self@.functions.len() == self.function_table.functions@.len(),
                result@.len() == i,
                forall|j: int|
                    0 <= j < i ==> (#[trigger] result@[j]).name@ == self@.functions[j].name
                        && result@[j].argument_count == self@.functions[j].argument_types.len()
                        && result@[j].learned_count == self@.functions[j].learned_values.len(),
            decreases self@.functions.len() - i,
        {
            let function = &self.function_table.functions[i];
            proof {
                assert(function@ == self@.functions[i as int]);
            }
            result.push(
                Entry {
                    name: function.name.clone(),
                    argument_count: function.argument_types.len(),
                    learned_count: function.learned_values.len(),
                },
            );
            i += 1;
        }
        result
    }

    /// Completes the module before it is written out: adds the entry
    /// point. A module that cannot be given one is left as it is.
    pub fn write_bitcode(&mut self) -> (result: Result<(), MathError>)
        ensures
            outcome(result) == match old(self)@.entry_error() {
                Some(error) => Err::<(), MathErrorView>(error),
                None => Ok(()),
            },
            result is Err ==> final(self)@ == old(self)@,
            result is Ok ==> final(self)@ == old(self)@.with_entry(),
            old(self)@.wf() ==> final(self)@.wf(),
    {
        match self.check_entry() {
            Ok(_) => {},
            Err(error) => { return Err(error); },
        }
        let ghost before = self@;
        let start = self.function_table.index_of(&FunctionKey::new("_main")).unwrap();
        let tick = self.function_table.index_of(&FunctionKey::new("_tick")).unwrap();
        let first = self.function_table.functions.len();

        // the functions of the runtime, and the entry point
        let mut register_types = Vec::new();
        register_types.push(Type::CString(0));
        register_types.push(Type::Integer(0, 64));
        register_types.push(Type::Integer(0, 64));
        let nothing: Vec<Type> = Vec::new();
        proof {
            assert(register_types@ =~= seq![
                Type::CString(0),
                Type::Integer(0, 64),
                Type::Integer(0, 64),
            ]);
            assert(nothing@ =~= seq![]);
        }
        self.create_extern_function("airt_register_function", &register_types, Type::Void);
        self.declare_function("airt_init", &nothing, Type::Void, false);
        let airt_init = self.function_table.functions.len() - 1;
        self.create_extern_function("airt_train", &nothing, Type::Void);
        let airt_train = self.function_table.functions.len() - 1;
        self.create_extern_function("main", &nothing, Type::Integer(0, 64));
        let main_function = self.function_table.functions.len() - 1;
        let main_block = self.new_block_at("main", main_function);
        let ghost declared = self@;
        proof {
            assert(before.functions.len() == before.terminals().len());
            assert(declared == before.with_entry_declarations());
        }
        let entries = self.entries();

        // hand the start and the tick function to the runtime
        let reset_value = self.function_value(main_block, start);
        let ghost reset = self@;
        let tick_value = self.function_value(main_block, tick);
        let ghost ticked = self@;
        let mut arguments = Vec::new();
        arguments.push(reset_value);
        arguments.push(tick_value);
        proof {
            assert(arguments@ =~= seq![reset_value, tick_value]);
            lemma_function_value_keeps_signatures(declared, main_block, start as int);
            lemma_function_value_keeps_signatures(reset, main_block, tick as int);
            lemma_call_keeps_signatures(ticked, main_block, airt_init as int, arguments@);
        }
        self.emit_call(main_block, airt_init, &arguments);
        let ghost initialized = self@;
        proof {
            assert(same_signatures(declared, initialized));
        }

        // the names of all functions, as constant strings
        let ghost names = declared.functions.map_values(|function: FunctionView| function.name);
        let mut name_globals: Vec<Value> = Vec::new();
        let mut i: usize = 0;
        while i < entries.len()
            invariant
                i <= entries@.len(),
                entries@.len() == names.len(),
                forall|j: int| 0 <= j < entries@.len() ==> (#[trigger] entries@[j]).name@ == names[j],
                initialized.has_block(main_block),
                self@.terminals() == initialized.terminals(),
                before.wf() ==> self@.wf(),
                name_globals@.len() == i,
                forall|j: int| 0 <= j < i ==> (#[trigger] name_globals@[j]).type_enum
                    == Type::CString(0),
                (self@, name_globals@) == initialized.name_all(main_block, names, i as int),
            decreases entries@.len() - i,
        {
            let value = self.create_global_string(main_block, entries[i].name.as_str());
            name_globals.push(value);
            i += 1;
        }
        let ghost named = self@;
        proof {
            lemma_names_keep_signatures(initialized, main_block, names, entries@.len() as int);
            assert(same_signatures(declared, named));
        }

        // register every function that holds learned values
        let mut i: usize = 0;
        while i < entries.len()
            invariant
                i <= entries@.len(),
                entries@.len() == declared.functions.len(),
                name_globals@.len() == entries@.len(),
                first + 4 == declared.functions.len(),
                forall|j: int|
                    0 <= j < entries@.len() ==> (#[trigger] entries@[j]).argument_count
                        == declared.functions[j].argument_types.len() && entries@[j].learned_count
                        == declared.functions[j].learned_values.len(),
                named.has_block(main_block),
                self@.terminals() == named.terminals(),
                before.wf() ==> self@.wf(),
                same_signatures(declared, self@),
                declared.functions[first as int].check_arguments,
                declared.functions[first as int].argument_types == seq![
                    Type::CString(0),
                    Type::Integer(0, 64),
                    Type::Integer(0, 64),
                ],
                forall|j: int| 0 <= j < name_globals@.len() ==> (#[trigger] name_globals@[j]).type_enum
                    == Type::CString(0),
                self@ == named.register_all(
                    main_block,
                    first as int,
                    declared.functions,
                    name_globals@,
                    i as int,
                ),
            decreases entries@.len() - i,
        {
            if entries[i].learned_count > 0 {
                let mut registration = Vec::new();
                registration.push(name_globals[i]);
                registration.push(self.create_immediate_integer(entries[i].argument_count as u64));
                registration.push(self.create_immediate_integer(entries[i].learned_count as u64));
                proof {
                    assert(registration@ =~= ModuleView::registration(
                        declared.functions[i as int],
                        name_globals@[i as int],
                    ));
                    lemma_registration_fits(self@.functions[first as int], registration@);
                }
                let ghost now = self@;
                self.emit_call(main_block, first, &registration);
                proof {
                    lemma_call_keeps_signatures(now, main_block, first as int, registration@);
                }
            }
            i += 1;
        }

        // run the program, train, and return
        let nothing: Vec<Value> = Vec::new();
        proof {
            assert(nothing@ =~= seq![]);
        }
        let ghost registered = self@;
        proof {
            lemma_call_keeps_signatures(registered, main_block, start as int, nothing@);
        }
        self.emit_call(main_block, start, &nothing);
        self.emit_call(main_block, airt_train, &nothing);
        let zero = self.create_immediate_integer(0);
        self.add_return(main_block, zero);
        Ok(())
    }
}

/// A name and two counts are what the registration takes.
proof fn lemma_registration_fits(register: FunctionView, registration: Seq<Value>)
    requires
        register.check_arguments,
        register.argument_types == seq![Type::CString(0), Type::Integer(0, 64), Type::Integer(0, 64)],
        registration.len() == 3,
        registration[0].type_enum == Type::CString(0),
        registration[1].type_enum == Type::Integer(0, 64),
        registration[2].type_enum == Type::Integer(0, 64),
    ensures
        register.call_error(registration) is None,
{
    reveal_with_fuel(argument_error, 4);
}

/// Whether two modules hold the same functions but for their blocks: as
/// many, each with the same name, signature and learned values, and as many
/// blocks.
pub open spec fn same_signatures(first: ModuleView, second: ModuleView) -> bool {
    &&& second.functions.len() == first.functions.len()
    &&& forall|g: int|
        0 <= g < first.functions.len() ==> {
            &&& (#[trigger] second.functions[g]).argument_types == first.functions[g].argument_types
            &&& second.functions[g].check_arguments == first.functions[g].check_arguments
            &&& second.functions[g].return_type == first.functions[g].return_type
            &&& second.functions[g].name == first.functions[g].name
            &&& second.functions[g].learned_values == first.functions[g].learned_values
            &&& second.functions[g].blocks.len() == first.functions[g].blocks.len()
        }
}

/// Bringing a value to a type changes the block, and no function's
/// signature.
proof fn lemma_resolve_keeps_signatures(module: ModuleView, block: Block, value: Value, to: Type)
    requires
        module.has_block(block),
    ensures
        same_signatures(module, module.math_resolve_value(block, value, to).0),
        same_signatures(module, module.resolve_value(block, value).0),
{
}

/// Bringing arguments to their parameters' types changes the block, and no
/// function's signature.
proof fn lemma_arguments_keep_signatures(module: ModuleView, block: Block, args: Seq<Value>, types: Seq<Type>)
    requires
        module.has_block(block),
    ensures
        same_signatures(module, module.resolve_arguments(block, args, types).0),
    decreases args.len(),
{
    if args.len() > 0 {
        lemma_arguments_keep_signatures(module, block, args.drop_last(), types.drop_last());
        let before = module.resolve_arguments(block, args.drop_last(), types.drop_last()).0;
        assert(before.has_block(block));
        lemma_resolve_keeps_signatures(before, block, args.last(), types.last());
    }
}

/// A call changes the block it is appended to, and no function's signature.
pub proof fn lemma_call_keeps_signatures(module: ModuleView, block: Block, function: int, args: Seq<Value>)
    requires
        module.has_block(block),
        0 <= function < module.functions.len(),
    ensures
        same_signatures(module, module.add_function_call(block, function, args).0),
{
    let callee = module.functions[function];
    if callee.check_arguments {
        lemma_arguments_keep_signatures(module, block, args, callee.argument_types);
        let after = module.resolve_arguments(block, args, callee.argument_types).0;
        assert(after.has_block(block));
    }
}

/// A constant string changes the block and the string table, and no
/// function's signature.
proof fn lemma_names_keep_signatures(module: ModuleView, block: Block, names: Seq<Seq<char>>, count: int)
    requires
        module.has_block(block),
    ensures
        same_signatures(module, module.name_all(block, names, count).0),
    decreases count,
{
    if count > 0 {
        lemma_names_keep_signatures(module, block, names, count - 1);
        let before = module.name_all(block, names, count - 1).0;
        assert(before.has_block(block));
    }
}

/// Reading a function's address changes the block, and no function's
/// signature.
proof fn lemma_function_value_keeps_signatures(module: ModuleView, block: Block, function: int)
    requires
        module.has_block(block),
    ensures
        same_signatures(module, module.function_value(block, function).0),
{
}

} // verus!
