pub mod control_flow;
pub mod else_if_statement;
pub mod else_statement;
pub mod if_statement;
pub mod return_statement;
pub mod void_return_statement;
