pub mod command;
pub mod io;
pub mod state;
pub mod parser;
pub mod messages;
