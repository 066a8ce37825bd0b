//! The grammar of REPL input lines.
use vstd::prelude::*;
use crate::strings::str_eq;
use crate::syntax::assignment::AssignmentSet;
use crate::parser::input::{Input, is_space, ws_tag, space0, ws_tag_at};
use crate::parser::assignment::{assignment_set1, assignment_list_at};
use crate::parser::expression::expression_many1;
use crate::parser::grammar::expression_list_at;
use crate::query::parser::{transformation, transformation_at};
use crate::repl::command::{Command, SCommand};

verus! {

/// Whether the line holds nothing but spaces and tabs.
pub open spec fn blank_line(s: Seq<char>) -> bool {
    forall|i: int| 0 <= i < s.len() ==> is_space(#[trigger] s[i])
}

/// Whether the line is one of the words that ask for help.
pub open spec fn is_help_word(s: Seq<char>) -> bool {
    s == ".help"@ || s == ".h"@
}

/// Whether the line is one of the words that end the session.
pub open spec fn is_exit_word(s: Seq<char>) -> bool {
    s == ".exit"@ || s == ".quit"@ || s == ".q"@
}

/// Whether the line is one of the words that show the bindings.
pub open spec fn is_show_env_word(s: Seq<char>) -> bool {
    s == ".env"@ || s == ".e"@
}

/// Whether the line is one of the words that clear the bindings.
pub open spec fn is_clear_env_word(s: Seq<char>) -> bool {
    s == ".clearenv"@ || s == ".ce"@
}

/// The message given for a line that is no command. It is the same for
/// every such line: it names neither the alternatives that were tried nor
/// the place where they stopped.
pub open spec fn syntax_error_text() -> Seq<char> {
    "syntax error"@
}

/// The command of a line that is neither blank nor a command word: a
/// transformation, `let` and assignments, assignments, expressions `with`
/// assignments, or expressions, each taking the whole line, tried in that
/// order.
pub open spec fn statement_spec(s: Seq<char>) -> Option<SCommand> {
    let n = s.len();
    match transformation_at(s, 0) {
        Some((t, end)) if end == n => Some(SCommand::Transform(t.0, t.1, t.2, t.3)),
        _ => match (match ws_tag_at(s, 0, "let "@) {
            Some(p) => assignment_list_at(s, p, 1),
            None => None,
        }) {
            Some((a, end)) if end == n => Some(SCommand::Assign(a, None)),
            _ => match assignment_list_at(s, 0, 1) {
                Some((a, end)) if end == n => Some(SCommand::Match(a)),
                _ => match (match expression_list_at(s, 0, 1) {
                    Some((e, p)) => match ws_tag_at(s, p, "with "@) {
                        Some(q) => match assignment_list_at(s, q, 1) {
                            Some((a, end)) => Some((a, e, end)),
                            None => None,
                        },
                        None => None,
                    },
                    None => None,
                }) {
                    Some((a, e, end)) if end == n => Some(SCommand::Eval(a, e)),
                    _ => match expression_list_at(s, 0, 1) {
                        Some((e, end)) if end == n => Some(SCommand::Eval(Seq::empty(), e)),
                        _ => None,
                    },
                },
            },
        },
    }
}

/// The command that a whole line asks for, if it is one.
pub open spec fn command_spec(s: Seq<char>) -> Option<SCommand> {
    if blank_line(s) {
        Some(SCommand::Cancel)
    } else if is_help_word(s) {
        Some(SCommand::Help)
    } else if is_exit_word(s) {
        Some(SCommand::Exit)
    } else if is_show_env_word(s) {
        Some(SCommand::ShowEnv)
    } else if is_clear_env_word(s) {
        Some(SCommand::ClearEnv)
    } else {
        statement_spec(s)
    }
}

fn parse_rest(inp: &Input, source: &str) -> (r: Option<Command>)
    requires
        inp.wf(),
        inp.chars@ == source@,
    ensures
        r matches Some(c) ==> c is Transform || c is Assign || c is Match || c is Eval,
        (match r {
            Some(c) => Some(c@),
            None => None,
        }) == statement_spec(source@),
{
    proof {
        reveal_strlit("let ");
        reveal_strlit("with ");
    }
    let n = inp.len();
    match transformation(inp, 0) {
        Some((t, end)) => if end == n {
            return Some(Command::Transform(t));
        },
        None => {},
    }
    match ws_tag(inp, 0, "let ") {
        Some(p) => match assignment_set1(inp, p) {
            Some((set, end)) => if end == n {
                return Some(Command::Assign(set, None));
            },
            None => {},
        },
        None => {},
    }
    match assignment_set1(inp, 0) {
        Some((set, end)) => if end == n {
            return Some(Command::Match(set));
        },
        None => {},
    }
    match expression_many1(inp, 0) {
        Some((exprs, p)) => match ws_tag(inp, p, "with ") {
            Some(q) => match assignment_set1(inp, q) {
                Some((set, end)) => if end == n {
                    return Some(Command::Eval(set, exprs));
                },
                None => {},
            },
            None => {},
        },
        None => {},
    }
    match expression_many1(inp, 0) {
        Some((exprs, end)) => if end == n {
            return Some(Command::Eval(AssignmentSet::default(), exprs));
        },
        None => {},
    }
    None
}

/// The command that a whole line of input asks for: a blank line cancels;
/// `.help`/`.h`, `.exit`/`.quit`/`.q`, `.env`/`.e` and `.clearenv`/`.ce`
/// are commands of their own; otherwise, tried in this order, a
/// transformation, `let` and assignments (kept), assignments (shown),
/// expressions `with` assignments, or expressions alone. A line that is
/// none of these is refused with `syntax_error_text`.
pub fn command_all_consuming(source: &str) -> (r: Result<Command, String>)
    ensures
        r matches Ok(Command::Cancel) <==> blank_line(source@),
        r matches Ok(Command::Help) <==> is_help_word(source@),
        r matches Ok(Command::Exit) <==> is_exit_word(source@),
        r matches Ok(Command::ShowEnv) <==> is_show_env_word(source@),
        r matches Ok(Command::ClearEnv) <==> is_clear_env_word(source@),
        r matches Err(msg) ==> msg@ == syntax_error_text(),
        (match r {
            Ok(c) => Some(c@),
            Err(_) => None,
        }) == command_spec(source@),
{
    proof {
        reveal_strlit(".help");
        reveal_strlit(".h");
        reveal_strlit(".exit");
        reveal_strlit(".quit");
        reveal_strlit(".q");
        reveal_strlit(".env");
        reveal_strlit(".e");
        reveal_strlit(".clearenv");
        reveal_strlit(".ce");
    }
    let inp = Input::new(source);
    let n = inp.len();
    if space0(&inp, 0) == n {
        proof {
            crate::parser::input::lemma_skip_space_all(inp.chars@, 0);
        }
        return Ok(Command::Cancel);
    }
    proof {
        crate::parser::input::lemma_skip_space_all(inp.chars@, 0);
        assert(!blank_line(source@));
    }
    if str_eq(source, ".help") || str_eq(source, ".h") {
        proof {
            assert(source@[1] == 'h');
            assert(!is_exit_word(source@) && !is_show_env_word(source@)) by {
                assert(".exit"@[1] == 'e' && ".quit"@[1] == 'q' && ".q"@[1] == 'q');
                assert(".env"@[1] == 'e' && ".e"@[1] == 'e');
            }
        }
        return Ok(Command::Help);
    }
    if str_eq(source, ".exit") || str_eq(source, ".quit") || str_eq(source, ".q") {
        proof {
            assert(!is_show_env_word(source@)) by {
                if source@ == ".exit"@ {
                    assert(source@[2] == 'x' && ".env"@[2] == 'n');
                    assert(source@.len() != ".e"@.len());
                } else {
                    assert(source@[1] == 'q');
                    assert(".env"@[1] == 'e' && ".e"@[1] == 'e');
                }
            }
        }
        return Ok(Command::Exit);
    }
    if str_eq(source, ".env") || str_eq(source, ".e") {
        return Ok(Command::ShowEnv);
    }
    if str_eq(source, ".clearenv") || str_eq(source, ".ce") {
        return Ok(Command::ClearEnv);
    }
    match parse_rest(&inp, source) {
        Some(c) => Ok(c),
        None => Err("syntax error".to_string()),
    }
}

} // verus!
