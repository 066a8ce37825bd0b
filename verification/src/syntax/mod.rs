pub mod location;
pub mod expression;
pub mod pattern;
pub mod identifiers;
pub mod assignment;
pub mod iterator;
pub mod level;
