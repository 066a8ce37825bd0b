pub mod input;
pub mod grammar;
pub mod pattern;
pub mod expression;
pub mod assignment;
pub mod value;
