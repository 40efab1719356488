//! Function declarations, and the instrumentation of functions that hold
//! learned values.

use vstd::prelude::*;

use crate::bitcode::same_signatures;
use crate::block::{Block, Opcode, TerminalInstruction, Value, ValueRef};
use crate::compiler::compile::{compile_pairs, same_function, stepped, CompilationContext, ContextView};
use crate::compiler::control_flow::void_return_statement::VoidReturn;
use crate::compiler::hooks::{handed_over, lemma_begin_hook_called_once};
use crate::compiler::steps::{declared, lemma_declared_function, lemma_lowered_nothing, lemma_lowered_twice, lowered};
use crate::compiler::type_names::{convert_type_name, named_type};
use crate::compiler::variable_declaration::last_text;
use crate::function_table::FunctionView;
use crate::module::{settled, Module, ModuleView};
use crate::parser::{Node, Rule};
use crate::types::{outcome, MathError, MathErrorView, Type};

verus! {

pub struct Function;

/// What a function's declaration says: its name, its parameters in order,
/// and the type it returns.
#[derive(Debug)]
pub struct Signature {
    pub name: String,
    pub argument_names: Vec<String>,
    pub argument_types: Vec<Type>,
    pub return_type: Type,
}

pub struct SignatureView {
    pub name: Seq<char>,
    pub argument_names: Seq<Seq<char>>,
    pub argument_types: Seq<Type>,
    pub return_type: Type,
}

impl View for Signature {
    type V = SignatureView;

    open spec fn view(&self) -> SignatureView {
        SignatureView {
            name: self.name@,
            argument_names: self.argument_names@.map_values(|name: String| name@),
            argument_types: self.argument_types@,
            return_type: self.return_type,
        }
    }
}

/// The position of the last of the nodes that is of kind `rule`.
pub open spec fn last_position(children: Seq<Node>, rule: Rule) -> Option<int>
    decreases children.len(),
{
    if children.len() == 0 {
        None
    } else if children.last().rule == rule {
        Some(children.len() - 1)
    } else {
        last_position(children.drop_last(), rule)
    }
}

/// The texts of the nodes of kind `rule`, in their order.
pub open spec fn texts_of(children: Seq<Node>, rule: Rule) -> Seq<Seq<char>>
    decreases children.len(),
{
    if children.len() == 0 {
        seq![]
    } else if children.last().rule == rule {
        texts_of(children.drop_last(), rule).push(children.last().text@)
    } else {
        texts_of(children.drop_last(), rule)
    }
}

/// The types that the names stand for, or what is wrong with the first name
/// that stands for none.
pub open spec fn named_types(module: ModuleView, names: Seq<Seq<char>>) -> Result<
    Seq<Type>,
    MathErrorView,
>
    decreases names.len(),
{
    if names.len() == 0 {
        Ok(seq![])
    } else {
        match named_types(module, names.drop_last()) {
            Err(error) => Err(error),
            Ok(types) => match named_type(module, names.last()) {
                Err(error) => Err(error),
                Ok(type_enum) => Ok(types.push(type_enum)),
            },
        }
    }
}

/// Whether a learned value stands at the node or anywhere below it.
pub open spec fn holds_learned_value(node: Node) -> bool
    decreases node, 1nat, 0nat,
{
    node.rule == Rule::LearnedValue || holds_learned_value_below(node, 0)
}

/// Whether a learned value stands at or below a child of `node` from
/// position `from` on.
pub open spec fn holds_learned_value_below(node: Node, from: int) -> bool
    decreases node, 0nat, node.children@.len() - from,
{
    if 0 <= from < node.children@.len() {
        holds_learned_value(node.children@[from]) || holds_learned_value_below(node, from + 1)
    } else {
        false
    }
}

/// What the declaration `pair` says. Its last child is the body. Among the
/// children before the body, the last token is the name, the last type
/// token the type that the function returns, nothing if there is none, and
/// the last list of parameters holds a type token and a token for each
/// parameter. A parameter needs a type.
pub open spec fn signature_of(module: ModuleView, pair: Node) -> Result<
    SignatureView,
    MathErrorView,
> {
    let children = pair.children@;
    if children.len() == 0 || children.last().rule != Rule::FunctionBody {
        Err(MathErrorView::UnknownSyntaxForm)
    } else {
        let header = children.drop_last();
        let parameters = match last_position(header, Rule::FunctionDeclarationArgs) {
            Some(at) => header[at].children@,
            None => seq![],
        };
        let returned = last_text(header, Rule::TypeToken);
        match named_types(module, texts_of(parameters, Rule::TypeToken)) {
            Err(error) => Err(error),
            Ok(argument_types) => match (if returned.len() == 0 {
                Ok(Type::Void)
            } else {
                named_type(module, returned)
            }) {
                Err(error) => Err(error),
                Ok(return_type) => if texts_of(parameters, Rule::Token).len()
                    > argument_types.len() {
                    Err(MathErrorView::UnknownSyntaxForm)
                } else {
                    Ok(
                        SignatureView {
                            name: last_text(header, Rule::Token),
                            argument_names: texts_of(parameters, Rule::Token),
                            argument_types,
                            return_type,
                        },
                    )
                },
            },
        }
    }
}

impl ModuleView {
    /// The module after the first `count` parameters were declared as
    /// variables of the function of `entry`, each bound to its argument.
    pub open spec fn bind_arguments(
        self,
        entry: Block,
        names: Seq<Seq<char>>,
        types: Seq<Type>,
        count: int,
    ) -> ModuleView
        decreases count,
    {
        if count <= 0 {
            self
        } else {
            self.bind_arguments(entry, names, types, count - 1).add_argument(
                entry,
                names[count - 1],
                types[count - 1],
                FunctionView::arguments(entry.parent, types)[count - 1],
            )
        }
    }

    /// The module after the first `count` arguments were stored to the
    /// array, each converted to a float.
    pub open spec fn store_arguments(self, entry: Block, array: Value, types: Seq<Type>, count: int) -> (
        ModuleView,
        Result<(), MathErrorView>,
    )
        decreases count,
    {
        if count <= 0 {
            (self, Ok(()))
        } else {
            let (before, result) = self.store_arguments(entry, array, types, count - 1);
            match result {
                Err(error) => (before, Err(error)),
                Ok(_) => {
                    let (after, stored) = before.add_store_to_array(
                        entry,
                        array,
                        (count - 1) as usize,
                        FunctionView::arguments(entry.parent, types)[count - 1],
                    );
                    match stored {
                        Err(error) => (after, Err(error)),
                        Ok(_) => (after, Ok(())),
                    }
                },
            }
        }
    }
}

impl ContextView {
    /// The context after the function was declared under its transformed
    /// name, its entry block made and its parameters bound. The cursor is
    /// at the entry block.
    pub open spec fn declare(self, signature: SignatureView) -> ContextView {
        let function = self.module.functions.len() as int;
        let entry = Block { parent: function as usize, index: 0 };
        ContextView {
            module: self.module.declare_function(
                "_"@ + signature.name,
                signature.argument_types,
                signature.return_type,
                true,
            ).with_new_block(function, signature.name).bind_arguments(
                entry,
                signature.argument_names,
                signature.argument_types,
                signature.argument_names.len() as int,
            ),
            current_function: Some("_"@ + signature.name),
            current_block: Some(entry),
            ..self
        }
    }

    /// The context after the begin hook was called at the cursor: the
    /// arguments are packed into an array of floats, and the hook gets the
    /// function's name, as a constant string, and the array. What the hook
    /// returns is the pending prediction.
    pub open spec fn instrument(self, types: Seq<Type>, count: int) -> (
        ContextView,
        Result<(), MathErrorView>,
    ) {
        match (self.current_block, self.current_function) {
            (Some(entry), Some(name)) => match self.module.find_function(
                self.airt_handle_function_call,
            ) {
                None => (
                    self,
                    Err(MathErrorView::UndefinedVariable(self.airt_handle_function_call)),
                ),
                Some(hook) => {
                    let (packed, array) = self.module.add_immutable_array(entry, count as usize);
                    let (stored, result) = packed.store_arguments(entry, array, types, count);
                    match result {
                        Err(error) => (self.with_module(stored), Err(error)),
                        Ok(_) => {
                            let (named, text) = stored.create_global_string(entry, name);
                            match named.functions[hook].call_error(seq![text, array]) {
                                Some(error) => (self.with_module(named), Err(error)),
                                None => {
                                    let (called, index) = named.add_function_call(
                                        entry,
                                        hook,
                                        seq![text, array],
                                    );
                                    (
                                        ContextView {
                                            module: called,
                                            prediction_index: Some(index),
                                            ..self
                                        },
                                        Ok(()),
                                    )
                                },
                            }
                        },
                    }
                },
            },
            _ => (self, Err(MathErrorView::UnknownSyntaxForm)),
        }
    }

    /// The context at the beginning of a function's body. The function is
    /// instrumented if it has at least one parameter and a learned value
    /// stands somewhere in its body; else no prediction is pending.
    pub open spec fn enter(self, signature: SignatureView, body: Node) -> (
        ContextView,
        Result<(), MathErrorView>,
    ) {
        if signature.argument_names.len() > 0 && holds_learned_value_below(body, 0) {
            self.instrument(signature.argument_types, signature.argument_names.len() as int)
        } else {
            (ContextView { prediction_index: None, ..self }, Ok(()))
        }
    }

    /// The context after the end of a function's body: a block that still
    /// carries the placeholder returns nothing, behind the finish hook; then
    /// the context is outside every function again.
    pub open spec fn fall_through(self) -> (ContextView, Result<(), MathErrorView>) {
        match self.current_block {
            None => (self, Err(MathErrorView::UnknownSyntaxForm)),
            Some(exit) => if self.module.terminal(exit) is Default {
                let (returned, result) = self.compile_void_return();
                match result {
                    Err(error) => (returned, Err(error)),
                    Ok(_) => (returned.outside(), Ok(())),
                }
            } else {
                (self.outside(), Ok(()))
            },
        }
    }

    /// The context outside every function.
    pub open spec fn outside(self) -> ContextView {
        ContextView {
            current_block: None,
            current_function: None,
            prediction_index: None,
            ..self
        }
    }

    /// The context after a function was compiled. A function is declared
    /// outside every function. It is instrumented if it has at least one
    /// parameter and a learned value stands somewhere in its body.
    pub open spec fn compile_function(self, pair: Node) -> (ContextView, Result<(), MathErrorView>)
        decreases pair, 5nat, 0nat,
    {
        if self.current_block is Some || self.current_function is Some {
            (self, Err(MathErrorView::UnknownSyntaxForm))
        } else {
            match signature_of(self.module, pair) {
                Err(error) => (self, Err(error)),
                Ok(signature) => {
                    let (instrumented, result) = self.declare(signature).enter(
                        signature,
                        pair.children@.last(),
                    );
                    match result {
                        Err(error) => (instrumented, Err(error)),
                        Ok(_) => {
                            let (bodied, result) = instrumented.compile_pairs(
                                pair.children@.last(),
                                0,
                            );
                            match result {
                                Err(error) => (bodied, Err(error)),
                                Ok(_) => bodied.fall_through(),
                            }
                        },
                    }
                },
            }
        }
    }
}

fn last_text_before(children: &Vec<Node>, upto: usize, rule: Rule) -> (result: String)
    requires
        upto <= children@.len(),
    ensures
        result@ == last_text(children@.take(upto as int), rule),
{
    let ghost header = children@.take(upto as int);
    let mut i = upto;
    proof {
        assert(header.take(i as int) =~= header);
    }
    while i > 0
        invariant
            i <= upto <= children@.len(),
            header == children@.take(upto as int),
            last_text(header, rule) == last_text(header.take(i as int), rule),
        decreases i,
    {
        proof {
            assert(header.take(i as int).drop_last() =~= header.take(i as int - 1));
        }
        if children[i - 1].rule == rule {
            return children[i - 1].text.clone();
        }
        i -= 1;
    }
    String::new()
}

fn last_position_before(children: &Vec<Node>, upto: usize, rule: Rule) -> (result: Option<usize>)
    requires
        upto <= children@.len(),
    ensures
        result is Some == last_position(children@.take(upto as int), rule) is Some,
        result matches Some(at) ==> at < upto && last_position(
            children@.take(upto as int),
            rule,
        ) == Some(at as int),
{
    let ghost header = children@.take(upto as int);
    let mut i = upto;
    proof {
        assert(header.take(i as int) =~= header);
    }
    while i > 0
        invariant
            i <= upto <= children@.len(),
            header == children@.take(upto as int),
            last_position(header, rule) == last_position(header.take(i as int), rule),
        decreases i,
    {
        proof {
            assert(header.take(i as int).drop_last() =~= header.take(i as int - 1));
        }
        if children[i - 1].rule == rule {
            return Some(i - 1);
        }
        i -= 1;
    }
    None
}

fn get_texts(children: &Vec<Node>, rule: Rule) -> (result: Vec<String>)
    ensures
        result@.map_values(|name: String| name@) == texts_of(children@, rule),
{
    let mut result: Vec<String> = Vec::new();
    let mut i: usize = 0;
    proof {
        assert(children@.take(0) =~= seq![]);
        assert(result@.map_values(|name: String| name@) =~= seq![]);
    }
    while i < children.len()
        invariant
            i <= children@.len(),
            result@.map_values(|name: String| name@) == texts_of(children@.take(i as int), rule),
        decreases children@.len() - i,
    {
        proof {
            assert(children@.take(i + 1).drop_last() =~= children@.take(i as int));
        }
        if children[i].rule == rule {
            let ghost before = result@.map_values(|name: String| name@);
            result.push(children[i].text.clone());
            proof {
                assert(result@.map_values(|name: String| name@) =~= before.push(
                    children@[i as int].text@,
                ));
            }
        }
        i += 1;
    }
    proof {
        assert(children@.take(i as int) =~= children@);
    }
    result
}

fn convert_type_names(module: &Module, names: &Vec<String>) -> (result: Result<
    Vec<Type>,
    MathError,
>)
    ensures
        match result {
            Ok(types) => named_types(module@, names@.map_values(|name: String| name@)) == Ok::<
                Seq<Type>,
                MathErrorView,
            >(types@),
            Err(error) => named_types(module@, names@.map_values(|name: String| name@)) == Err::<
                Seq<Type>,
                MathErrorView,
            >(error@),
        },
{
    let ghost texts = names@.map_values(|name: String| name@);
    let mut types: Vec<Type> = Vec::new();
    let mut i: usize = 0;
    proof {
        assert(texts.take(0) =~= seq![]);
    }
    while i < names.len()
        invariant
            i <= names@.len(),
            texts == names@.map_values(|name: String| name@),
            named_types(module@, texts.take(i as int)) == Ok::<Seq<Type>, MathErrorView>(types@),
        decreases names@.len() - i,
    {
        proof {
            assert(texts.take(i + 1).drop_last() =~= texts.take(i as int));
            assert(texts.take(i + 1).last() == names@[i as int]@);
        }
        match convert_type_name(module, names[i].as_str()) {
            Ok(type_enum) => {
                types.push(type_enum);
            },
            Err(error) => {
                proof {
                    lemma_named_types_fail(module@, texts, i + 1);
                }
                return Err(error);
            },
        }
        i += 1;
    }
    proof {
        assert(texts.take(i as int) =~= texts);
    }
    Ok(types)
}

/// Names that stand for no types at their beginning stand for none as a
/// whole, and for the same reason.
proof fn lemma_named_types_fail(module: ModuleView, names: Seq<Seq<char>>, length: int)
    requires
        0 <= length <= names.len(),
        named_types(module, names.take(length)) is Err,
    ensures
        named_types(module, names) == named_types(module, names.take(length)),
    decreases names.len(),
{
    if length == names.len() {
        assert(names.take(length) =~= names);
    } else {
        assert(names.drop_last().take(length) =~= names.take(length));
        lemma_named_types_fail(module, names.drop_last(), length);
    }
}

impl Function {
    /// Looks for learned values below a node. Whether there is one decides
    /// whether the function is instrumented.
    pub fn look_for_learned_values(pair: &Node) -> (result: bool)
        ensures
            result == holds_learned_value_below(*pair, 0),
        decreases pair,
    {
        let mut i: usize = 0;
        while i < pair.children.len()
            invariant
                i <= pair.children@.len(),
                holds_learned_value_below(*pair, 0) == holds_learned_value_below(*pair, i as int),
            decreases pair.children@.len() - i,
        {
            let child = &pair.children[i];
            proof {
                assert(holds_learned_value(*child) == (child.rule == Rule::LearnedValue
                    || holds_learned_value_below(*child, 0)));
            }
            if child.rule == Rule::LearnedValue {
                return true;
            }
            if Self::look_for_learned_values(child) {
                return true;
            }
            i += 1;
        }
        false
    }

    /// Reads the declaration of a function.
    pub fn signature(module: &Module, pair: &Node) -> (result: Result<Signature, MathError>)
        ensures
            match result {
                Ok(signature) => signature_of(module@, *pair) == Ok::<SignatureView, MathErrorView>(
                    signature@,
                ),
                Err(error) => signature_of(module@, *pair) == Err::<SignatureView, MathErrorView>(
                    error@,
                ),
            },
    {
        let count = pair.children.len();
        if count == 0 {
            return Err(MathError::UnknownSyntaxForm);
        }
        if pair.children[count - 1].rule != Rule::FunctionBody {
            return Err(MathError::UnknownSyntaxForm);
        }
        proof {
            assert(pair.children@.take(count - 1) =~= pair.children@.drop_last());
        }
        let (argument_names, type_names) = match last_position_before(
            &pair.children,
            count - 1,
            Rule::FunctionDeclarationArgs,
        ) {
            Some(at) => (
                get_texts(&pair.children[at].children, Rule::Token),
                get_texts(&pair.children[at].children, Rule::TypeToken),
            ),
            None => {
                let names: Vec<String> = Vec::new();
                let types: Vec<String> = Vec::new();
                proof {
                    assert(names@.map_values(|name: String| name@) =~= seq![]);
                    assert(types@.map_values(|name: String| name@) =~= seq![]);
                    assert(texts_of(Seq::<Node>::empty(), Rule::Token) =~= seq![]);
                    assert(texts_of(Seq::<Node>::empty(), Rule::TypeToken) =~= seq![]);
                }
                (names, types)
            },
        };
        let returned = last_text_before(&pair.children, count - 1, Rule::TypeToken);
        let argument_types = match convert_type_names(module, &type_names) {
            Ok(types) => types,
            Err(error) => { return Err(error); },
        };
        let return_type = if returned.as_str().unicode_len() == 0 {
            Type::Void
        } else {
            match convert_type_name(module, returned.as_str()) {
                Ok(return_type) => return_type,
                Err(error) => { return Err(error); },
            }
        };
        if argument_names.len() > argument_types.len() {
            return Err(MathError::UnknownSyntaxForm);
        }
        let name = last_text_before(&pair.children, count - 1, Rule::Token);
        Ok(Signature { name, argument_names, argument_types, return_type })
    }

    fn declare(context: &mut CompilationContext, signature: &Signature) -> (entry: Block)
        requires
            old(context)@.wf(),
            signature@.argument_names.len() <= signature@.argument_types.len(),
        ensures
            final(context)@ == old(context)@.declare(signature@),
            final(context)@.module.terminals() == old(context)@.module.terminals().push(
                seq![TerminalInstruction::Default],
            ),
            final(context)@.current_block == Some(entry),
            entry.parent == old(context)@.module.terminals().len(),
            entry.index == 0,
            final(context)@.wf(),
            final(context)@.module.block(entry).instructions.len() == 0,
    {
        let ghost before = context@;
        let key = context.module.create_function(
            signature.name.as_str(),
            &signature.argument_types,
            signature.return_type,
        );
        let function = context.module.function_table.functions.len() - 1;
        let entry = context.module.new_block_at(signature.name.as_str(), function);
        let ghost made = context@.module;
        proof {
            assert(before.module.functions.len() == before.module.terminals().len());
            assert(context@.module.terminals() =~~= before.module.terminals().push(
                seq![TerminalInstruction::Default],
            ));
        }
        let ghost names = signature@.argument_names;
        let ghost types = signature@.argument_types;
        let mut i: usize = 0;
        while i < signature.argument_names.len()
            invariant
                i <= signature.argument_names@.len(),
                signature.argument_names@.len() <= signature.argument_types@.len(),
                names == signature@.argument_names,
                types == signature@.argument_types,
                entry.parent == function,
                context@.module == made.bind_arguments(entry, names, types, i as int),
                context@.module.terminals() == made.terminals(),
                context@.module.functions == made.functions,
                context@.module.wf(),
                context@.airt_handle_function_call == before.airt_handle_function_call,
                context@.airt_finish_function_call == before.airt_finish_function_call,
                context@.placeholder_evaluation_float == before.placeholder_evaluation_float,
                context@.placeholder_evaluation_int == before.placeholder_evaluation_int,
                context@.prediction_index == before.prediction_index,
                context@.current_block == before.current_block,
                context@.current_function == before.current_function,
            decreases signature.argument_names@.len() - i,
        {
            let argument_type = signature.argument_types[i];
            context.module.add_argument(
                entry,
                signature.argument_names[i].as_str(),
                argument_type,
                Value {
                    type_enum: argument_type,
                    value: ValueRef::Argument { function, index: i },
                },
            );
            i += 1;
        }
        context.current_function = Some(key);
        context.current_block = Some(entry);
        entry
    }

    fn instrument(context: &mut CompilationContext, signature: &Signature) -> (result: Result<
        (),
        MathError,
    >)
        requires
            old(context)@.wf(),
            signature@.argument_names.len() <= signature@.argument_types.len(),
        ensures
            (final(context)@, outcome(result)) == old(context)@.instrument(
                signature@.argument_types,
                signature@.argument_names.len() as int,
            ),
            final(context)@.module.terminals() == old(context)@.module.terminals(),
            old(context)@.module.wf() ==> final(context)@.module.wf(),
            final(context)@.current_block == old(context)@.current_block,
    {
        let ghost before = context@;
        let entry = match context.current_block {
            Some(entry) => entry,
            None => { return Err(MathError::UnknownSyntaxForm); },
        };
        let hook = match &context.current_function {
            None => { return Err(MathError::UnknownSyntaxForm); },
            Some(_) => match context.module.function_table.index_of(
                &context.airt_handle_function_call,
            ) {
                Some(hook) => hook,
                None => {
                    return Err(
                        MathError::UndefinedVariable(
                            context.airt_handle_function_call.name.clone(),
                        ),
                    );
                },
            },
        };
        let count = signature.argument_names.len();
        // create array of arguments
        let array = context.module.add_immutable_array(entry, Type::Float(0), count);
        let ghost packed = context@.module;
        let ghost types = signature@.argument_types;
        let mut i: usize = 0;
        while i < count
            invariant
                i <= count,
                count == signature.argument_names@.len(),
                count <= signature.argument_types@.len(),
                types == signature@.argument_types,
                before == old(context)@,
                before.current_block == Some(entry),
                before.current_function is Some,
                before.module.find_function(before.airt_handle_function_call) == Some(
                    hook as int,
                ),
                (packed, array) == before.module.add_immutable_array(entry, count),
                before.module.has_block(entry),
                context@.module.terminals() == before.module.terminals(),
                before.module.wf() ==> context@.module.wf(),
                (context@.module, Ok::<(), MathErrorView>(())) == packed.store_arguments(
                    entry,
                    array,
                    types,
                    i as int,
                ),
                context@.airt_handle_function_call == before.airt_handle_function_call,
                context@.airt_finish_function_call == before.airt_finish_function_call,
                context@.placeholder_evaluation_float == before.placeholder_evaluation_float,
                context@.placeholder_evaluation_int == before.placeholder_evaluation_int,
                context@.prediction_index == before.prediction_index,
                context@.current_block == before.current_block,
                context@.current_function == before.current_function,
            decreases count - i,
        {
            let value = Value {
                type_enum: signature.argument_types[i],
                value: ValueRef::Argument { function: entry.parent, index: i },
            };
            match context.module.add_store_to_array(entry, array, i, value) {
                Ok(_) => {},
                Err(error) => {
                    proof {
                        lemma_store_arguments_fail(packed, entry, array, types, i + 1, count as int);
                    }
                    return Err(error);
                },
            }
            i += 1;
        }
        let text = match &context.current_function {
            Some(key) => context.module.create_global_string(entry, key.name.as_str()),
            None => { return Err(MathError::UnknownSyntaxForm); },
        };
        let mut args = Vec::new();
        args.push(text);
        args.push(array);
        proof {
            assert(args@ =~= seq![text, array]);
            assert(context@.module.functions.len() == context@.module.terminals().len());
            assert(before.module.functions.len() == before.module.terminals().len());
        }
        match context.module.check_call(hook, &args) {
            Ok(_) => {},
            Err(error) => { return Err(error); },
        }
        let index = context.module.emit_call(entry, hook, &args);
        context.prediction_index = Some(index);
        Ok(())
    }

    fn fall_through(context: &mut CompilationContext) -> (result: Result<(), MathError>)
        requires
            old(context)@.wf(),
        ensures
            (final(context)@, outcome(result)) == old(context)@.fall_through(),
            result is Ok ==> ({
                &&& old(context)@.current_block matches Some(exit)
                &&& lowered(
                    old(context)@.module.terminals(),
                    exit,
                    final(context)@.module.terminals(),
                    exit,
                )
                &&& final(context)@.module.terminal(exit).is_real()
                &&& final(context)@.module.wf()
                &&& final(context)@.current_block is None
            }),
            // a body that fell through returns nothing, behind one call of
            // the finish hook where a prediction is pending; a body that
            // ended on its own is left as it ended
            result is Ok ==> ({
                &&& old(context)@.current_block matches Some(exit)
                &&& if old(context)@.module.terminal(exit) is Default {
                    &&& final(context)@.module.terminal(exit) is ReturnVoid
                    &&& forall|callee: usize| #[trigger]
                        final(context)@.module.calls(exit, callee)
                            == old(context)@.module.calls(exit, callee)
                            + old(context)@.calls_at_return(callee)
                } else {
                    final(context)@.module == old(context)@.module
                }
            }),
    {
        let exit = match context.current_block {
            Some(exit) => exit,
            None => { return Err(MathError::UnknownSyntaxForm); },
        };
        if context.module.has_default_block_terminal(exit) {
            match VoidReturn::compile(context) {
                Ok(_) => {},
                Err(error) => { return Err(error); },
            }
        } else {
            proof {
                let terminals = context@.module.terminals();
                assert(settled(terminals[exit.parent as int][exit.index as int]));
                lemma_lowered_nothing(terminals, exit);
            }
        }
        context.current_function = None;
        context.current_block = None;
        context.prediction_index = None;
        Ok(())
    }

    pub fn compile(context: &mut CompilationContext, pair: &Node) -> (result: Result<(), MathError>)
        requires
            old(context)@.wf(),
        ensures
            (final(context)@, outcome(result)) == old(context)@.compile_function(*pair),
            result is Ok ==> old(context)@.current_block is None && stepped(
                old(context)@,
                final(context)@,
            ),
            // the begin hook is called once where the body of an instrumented
            // function begins, and the prediction it yields is pending where
            // the body ends; no other function calls it there, and no
            // prediction is pending in one
            result is Ok ==> ({
                let signature = signature_of(old(context)@.module, *pair)->Ok_0;
                let body = pair.children@.last();
                let declared = old(context)@.declare(signature);
                let entered = declared.enter(signature, body).0;
                let bodied = entered.compile_pairs(body, 0).0;
                &&& begun(
                    declared,
                    signature,
                    entered,
                    signature.argument_names.len() > 0 && holds_learned_value_below(body, 0),
                )
                &&& stepped(entered, bodied)
                &&& bodied.prediction_index == entered.prediction_index
                &&& final(context)@ == bodied.fall_through().0
            }),
        decreases pair, 5nat, 0nat,
    {
        if context.current_block.is_some() || context.current_function.is_some() {
            return Err(MathError::UnknownSyntaxForm);
        }
        let signature = match Self::signature(&context.module, pair) {
            Ok(signature) => signature,
            Err(error) => { return Err(error); },
        };
        let ghost before = context@.module.terminals();
        let count = pair.children.len();
        let body = &pair.children[count - 1];
        let entry = Self::declare(context, &signature);
        let ghost base = context@.module.terminals();
        let ghost opened = context@;
        let function_count = context.module.function_table.functions.len();

        let has_learned_values = Self::look_for_learned_values(body);
        if signature.argument_names.len() > 0 && has_learned_values {
            match Self::instrument(context, &signature) {
                Ok(_) => {},
                Err(error) => { return Err(error); },
            }
            proof {
                assert(opened.module.functions.len() == function_count);
                assert forall|callee: usize| #[trigger]
                    context@.module.calls(entry, callee) == if opened.module.find_function(
                        opened.airt_handle_function_call,
                    ) == Some(callee as int) {
                        1nat
                    } else {
                        0nat
                    } by {
                    lemma_begin_hook_called_once(
                        opened,
                        signature@.argument_types,
                        signature@.argument_names.len() as int,
                        entry,
                        callee,
                    );
                }
                lemma_begin_hook_called_once(
                    opened,
                    signature@.argument_types,
                    signature@.argument_names.len() as int,
                    entry,
                    0,
                );
            }
        } else {
            context.prediction_index = None;
        }
        let ghost entered = context@;
        proof {
            assert(begun(
                opened,
                signature@,
                entered,
                signature@.argument_names.len() > 0 && has_learned_values,
            ));
        }

        match compile_pairs(context, body) {
            Ok(_) => {},
            Err(error) => { return Err(error); },
        }
        let ghost bodied = context@.module.terminals();
        let ghost exit = context@.current_block.unwrap();
        let result = Self::fall_through(context);
        proof {
            if result is Ok {
                lemma_lowered_twice(base, entry, bodied, exit, context@.module.terminals(), exit);
                lemma_declared_function(before, entry, context@.module.terminals(), exit);
            }
        }
        result
    }
}

/// Arguments of which the first could not all be stored cannot all be
/// stored, for the same reason and with the same stores done.
proof fn lemma_store_arguments_fail(
    module: ModuleView,
    entry: Block,
    array: Value,
    types: Seq<Type>,
    first: int,
    count: int,
)
    requires
        0 <= first <= count,
        module.store_arguments(entry, array, types, first).1 is Err,
    ensures
        module.store_arguments(entry, array, types, count) == module.store_arguments(
            entry,
            array,
            types,
            first,
        ),
    decreases count - first,
{
    if first < count {
        lemma_store_arguments_fail(module, entry, array, types, first, count - 1);
    }
}

/// What holds where the body of a function begins, after the context
/// `declared` with the cursor at the new entry block became `entered`. An
/// instrumented function has called the begin hook exactly once, and
/// nothing else: the call stands last in the entry block; it hands over
/// the function's name, as a constant string, and the array into which the
/// arguments were packed; and what it yields is the pending prediction. Any other
/// function has emitted nothing, and no prediction is pending in it.
pub open spec fn begun(
    declared: ContextView,
    signature: SignatureView,
    entered: ContextView,
    instrumented: bool,
) -> bool {
    &&& declared.current_block matches Some(entry) && entered.current_block == Some(entry)
        && declared.module.block(entry).instructions.len() == 0 && if instrumented {
        let call = entered.module.block(entry).instructions.last();
        let count = signature.argument_names.len() as int;
        let (named, text) = declared.named_at_entry(signature.argument_types, count);
        let array = declared.module.add_immutable_array(entry, count as usize).1;
        &&& declared.module.find_function(declared.airt_handle_function_call) matches Some(hook)
            && call.opcode == Opcode::Call(hook as usize) && call.operands == handed_over(
            named,
            entry,
            hook,
            seq![text, array],
        ) && forall|callee: usize| #[trigger]
            entered.module.calls(entry, callee) == if callee == hook {
                1nat
            } else {
                0nat
            }
        &&& call.operands.len() == 2
        &&& entered.prediction_index matches Some(index) && index.value
            == (ValueRef::Instruction {
            block: entry,
            index: (entered.module.block(entry).instructions.len() - 1) as usize,
        })
    } else {
        entered.module == declared.module && entered.prediction_index is None
    }
}

/// A function without parameters is never instrumented, whatever its body
/// holds: nothing is emitted where its body begins, and no prediction is
/// pending in it.
pub proof fn lemma_no_parameters_no_prediction(context: ContextView, signature: SignatureView, body: Node)
    requires
        signature.argument_names.len() == 0,
    ensures
        context.enter(signature, body) == (
            ContextView { prediction_index: None, ..context },
            Ok::<(), MathErrorView>(()),
        ),
{
}

/// A function without learned values is never instrumented.
pub proof fn lemma_no_learned_values_no_prediction(
    context: ContextView,
    signature: SignatureView,
    body: Node,
)
    requires
        !holds_learned_value_below(body, 0),
    ensures
        context.enter(signature, body) == (
            ContextView { prediction_index: None, ..context },
            Ok::<(), MathErrorView>(()),
        ),
{
}

/// An instrumented function calls the begin hook exactly once where its
/// body begins: the call is the last instruction of the instrumentation,
/// its arguments are the function's name and the packed arguments, and its
/// result is the pending prediction. The terminals are as they were.
pub proof fn lemma_instrumented_entry(context: ContextView, types: Seq<Type>, count: int)
    requires
        context.current_block matches Some(entry) && context.module.has_block(entry),
        context.instrument(types, count).1 is Ok,
        context.module.find_function(context.airt_handle_function_call) matches Some(hook)
            && 0 <= hook < context.module.functions.len()
            && !context.module.functions[hook].check_arguments,
        0 <= count <= usize::MAX,
    ensures
        ({
            let entry = context.current_block.unwrap();
            let hook = context.module.find_function(context.airt_handle_function_call).unwrap();
            let after = context.instrument(types, count).0;
            let call = after.module.block(entry).instructions.last();
            &&& call.opcode == Opcode::Call(hook as usize)
            &&& call.operands.len() == 2
            &&& call.operands[1] == context.module.next_value(entry)
            &&& after.prediction_index matches Some(index) && index.value
                == (ValueRef::Instruction {
                block: entry,
                index: (after.module.block(entry).instructions.len() - 1) as usize,
            })
            &&& same_function(
                ContextView { prediction_index: after.prediction_index, ..context },
                after,
            )
        }),
{
    let entry = context.current_block.unwrap();
    let hook = context.module.find_function(context.airt_handle_function_call).unwrap();
    let name = context.current_function.unwrap();
    let (packed, array) = context.module.add_immutable_array(entry, count as usize);
    let (stored, result) = packed.store_arguments(entry, array, types, count);
    let (named, text) = stored.create_global_string(entry, name);
    let args = seq![text, array];
    assert(same_signatures(context.module, packed));
    assert(packed.has_block(entry));
    lemma_store_keeps_signatures(packed, entry, array, types, count);
    assert(same_signatures(stored, named));
    assert(named.functions[hook].check_arguments == context.module.functions[hook].check_arguments);
    let operands = args.map_values(|value: Value| value.value);
    assert(operands =~= seq![text.value, array.value]);
}

/// Storing the arguments changes the entry block, and no function's
/// signature.
proof fn lemma_store_keeps_signatures(
    module: ModuleView,
    entry: Block,
    array: Value,
    types: Seq<Type>,
    count: int,
)
    requires
        module.has_block(entry),
    ensures
        same_signatures(module, module.store_arguments(entry, array, types, count).0),
        module.store_arguments(entry, array, types, count).0.has_block(entry),
    decreases count,
{
    if count > 0 {
        lemma_store_keeps_signatures(module, entry, array, types, count - 1);
    }
}

} // verus!
