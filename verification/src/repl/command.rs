//! The commands the REPL understands.
use vstd::prelude::*;
use crate::syntax::assignment::{AssignmentSet, SAssignment};
use crate::syntax::expression::{ExpressionSet, SExpr};
use crate::syntax::pattern::SPattern;
use crate::query::transformation::Transformation;

verus! {

#[derive(Debug)]
pub enum Command {
    Help,
    Cancel,
    Exit,
    ShowEnv,
    ClearEnv,
    Transform(Transformation),
    /// Assignments whose bindings are kept, and assignments whose bindings
    /// are only visible to them.
    Assign(AssignmentSet, Option<AssignmentSet>),
    /// Assignments whose bindings are shown but not kept.
    Match(AssignmentSet),
    /// Expressions evaluated with the bindings of the assignments.
    Eval(AssignmentSet, ExpressionSet),
}

pub enum SCommand {
    Help,
    Cancel,
    Exit,
    ShowEnv,
    ClearEnv,
    /// The bag, the patterns, the guard and the projections.
    Transform(Seq<SExpr>, Seq<SPattern>, SExpr, Seq<SExpr>),
    Assign(Seq<SAssignment>, Option<Seq<SAssignment>>),
    Match(Seq<SAssignment>),
    Eval(Seq<SAssignment>, Seq<SExpr>),
}

impl View for Command {
    type V = SCommand;

    open spec fn view(&self) -> SCommand {
        match self {
            Command::Help => SCommand::Help,
            Command::Cancel => SCommand::Cancel,
            Command::Exit => SCommand::Exit,
            Command::ShowEnv => SCommand::ShowEnv,
            Command::ClearEnv => SCommand::ClearEnv,
            Command::Transform(t) => SCommand::Transform(
                t.bag@,
                t.projection.predicate.capture.patterns@,
                t.projection.predicate.guard@,
                t.projection.projections@,
            ),
            Command::Assign(a, l) => SCommand::Assign(a@, match l {
                Some(l) => Some(l@),
                None => None,
            }),
            Command::Match(a) => SCommand::Match(a@),
            Command::Eval(a, e) => SCommand::Eval(a@, e@),
        }
    }
}

} // verus!
