//! A compiler for a small imperative language with functions, control flow,
//! expressions and learned values: placeholders whose value a prediction
//! supplies when the program runs.
//!
//! The compiler reads a parse tree (`parser`) and builds a module
//! (`module`): functions (`function_table`) made of blocks (`block`), each a
//! list of instructions that ends in exactly one terminal. A block is
//! created with a placeholder terminal, so that the graph is well formed at
//! every moment of the compilation; the statement that knows how the block
//! ends replaces the placeholder later.
//!
//! The lower half of the crate emits single instructions: arithmetic with
//! the promotion and conversion of operands (`types`, `math`), variables
//! (`variables`), calls (`call`), short-circuit logic (`logic`), structs
//! (`object`), the order of blocks (`layout`) and the program's entry point
//! (`bitcode`). The upper half (`compiler`) walks the parse tree:
//! expressions are bracketed by the precedence of their operators and
//! lowered; conditional chains and loops make blocks and stitch them
//! together; functions that hold learned values are bracketed with calls of
//! the runtime's hooks, once where the body begins and once at each return
//! (`compiler::hooks`).
//!
//! Every type that changes has a view, and every function says what it does
//! to the view: the module after the call is a function of the module
//! before it. On top of that the compiling functions keep what `steps`
//! defines: when a function has been compiled, each of its blocks ends in a
//! real terminal.
//!
//! The module is plain data. A backend turns it into machine code.

pub mod bitcode;
pub mod block;
pub mod call;
pub mod compiler;
pub mod function_table;
pub mod layout;
pub mod logic;
pub mod math;
pub mod module;
pub mod object;
pub mod parser;
pub mod types;
pub mod utility;
pub mod variables;
