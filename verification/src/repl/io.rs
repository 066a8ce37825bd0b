//! What the REPL answers.
use vstd::prelude::*;
use crate::value::{ValueBag, SValue};
use crate::runtime::env::Environment;

verus! {

#[derive(Debug)]
pub enum ReplOutput {
    Success,
    Write(String),
    Values(ValueBag),
    Bindings(Environment),
    Exit,
}

pub enum SReplOutput {
    Success,
    Write(Seq<char>),
    Values(Seq<SValue>),
    Bindings(Seq<(Seq<char>, SValue)>),
    Exit,
}

impl View for ReplOutput {
    type V = SReplOutput;

    open spec fn view(&self) -> SReplOutput {
        match self {
            ReplOutput::Success => SReplOutput::Success,
            ReplOutput::Write(s) => SReplOutput::Write(s@),
            ReplOutput::Values(b) => SReplOutput::Values(b@),
            ReplOutput::Bindings(e) => SReplOutput::Bindings(e@),
            ReplOutput::Exit => SReplOutput::Exit,
        }
    }
}

#[derive(Clone, Copy, Debug, PartialEq, Eq, Structural)]
pub enum ReplError {
    ParseError,
    EvalError,
    MatchError,
    TopologyError,
}

} // verus!
