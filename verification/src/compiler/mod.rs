pub mod compile;
pub mod control_flow;
pub mod function;
pub mod function_call;
pub mod hooks;
pub mod learned_value;
pub mod loops;
pub mod math;
pub mod new_struct;
pub mod steps;
pub mod struct_declaration;
pub mod type_names;
pub mod variable_assignment;
pub mod variable_declaration;
