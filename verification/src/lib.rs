//! Damasc: a small language of values, patterns and expressions with a
//! verified evaluator, pattern matcher, query engine and REPL state machine.

pub mod value_type;
pub mod identifier;
pub mod literal;
pub mod strings;
pub mod syntax;
pub mod value;
pub mod runtime;
pub mod topology;
pub mod query;
pub mod repl;
pub mod text;
pub mod laws;
pub mod parser;
