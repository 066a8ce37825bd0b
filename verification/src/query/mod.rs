pub mod capture;
pub mod predicate;
pub mod projection;
pub mod iter;
pub mod transformation;
pub mod parser;
