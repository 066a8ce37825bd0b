pub mod env;
pub mod semantics;
pub mod evaluation;
pub mod matching;
pub mod assignment;
