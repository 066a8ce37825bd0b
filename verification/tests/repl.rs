use damasc::repl::command::Command;
use damasc::repl::io::{ReplError, ReplOutput};
use damasc::repl::parser::command_all_consuming;
use damasc::repl::state::State;

fn run(state: &mut State, line: &str) -> Result<ReplOutput, ReplError> {
    let command = command_all_consuming(line).expect("command parses");
    state.eval(command)
}

fn text(state: &mut State, line: &str) -> String {
    match run(state, line) {
        Ok(out) => out.to_string(),
        Err(e) => panic!("{:?} for {}", e, line),
    }
}

#[test]
fn keywords_are_commands() {
    assert!(matches!(command_all_consuming(""), Ok(Command::Cancel)));
    assert!(matches!(command_all_consuming("  \t"), Ok(Command::Cancel)));
    assert!(matches!(command_all_consuming(".help"), Ok(Command::Help)));
    assert!(matches!(command_all_consuming(".h"), Ok(Command::Help)));
    assert!(matches!(command_all_consuming(".exit"), Ok(Command::Exit)));
    assert!(matches!(command_all_consuming(".quit"), Ok(Command::Exit)));
    assert!(matches!(command_all_consuming(".q"), Ok(Command::Exit)));
    assert!(matches!(command_all_consuming(".env"), Ok(Command::ShowEnv)));
    assert!(matches!(command_all_consuming(".e"), Ok(Command::ShowEnv)));
    assert!(matches!(command_all_consuming(".clearenv"), Ok(Command::ClearEnv)));
    assert!(matches!(command_all_consuming(".ce"), Ok(Command::ClearEnv)));
}

#[test]
fn other_lines_are_parsed_in_order() {
    assert!(matches!(command_all_consuming("{1; 2} |> map x into x"), Ok(Command::Transform(_))));
    assert!(matches!(command_all_consuming("let x = 5"), Ok(Command::Assign(_, None))));
    assert!(matches!(command_all_consuming("x = 5"), Ok(Command::Match(_))));
    assert!(matches!(command_all_consuming("x + 1 with x = 5"), Ok(Command::Eval(_, _))));
    assert!(matches!(command_all_consuming("1 + 1; 2"), Ok(Command::Eval(a, e)) if a.assignments.is_empty() && e.expressions.len() == 2));
    assert!(matches!(command_all_consuming(".helpme"), Err(_)));
    assert!(matches!(command_all_consuming("1 +"), Err(_)));
}

#[test]
fn session_keeps_let_bindings() {
    let mut state = State::new();
    assert_eq!(text(&mut state, "let x = 5"), "x = 5;\n\n");
    assert_eq!(text(&mut state, "x * 2"), "10;\n\n");
    assert_eq!(text(&mut state, "y = x + 1"), "y = 6;\n\n");
    assert!(matches!(run(&mut state, "y"), Err(ReplError::EvalError)));
    assert_eq!(text(&mut state, "x + y with y = 1"), "6;\n\n");
    assert_eq!(text(&mut state, ".env"), "x = 5;\n\n");
    assert_eq!(text(&mut state, ".clearenv"), "OK.\n");
    assert!(matches!(run(&mut state, "x"), Err(ReplError::EvalError)));
    assert_eq!(text(&mut state, ".help"), "OK.\n");
    assert_eq!(text(&mut state, ".exit"), "");
}

#[test]
fn session_reports_errors() {
    let mut state = State::new();
    assert!(matches!(run(&mut state, "5 = 6"), Err(ReplError::MatchError)));
    assert!(matches!(run(&mut state, "x = y; y = x"), Err(ReplError::TopologyError)));
    assert!(matches!(run(&mut state, "1 / 0"), Err(ReplError::EvalError)));
    assert!(matches!(run(&mut state, "{[1]} |> map [x] where x > z"), Err(ReplError::EvalError)));
}

#[test]
fn session_runs_transformations() {
    let mut state = State::new();
    assert_eq!(text(&mut state, "{1; 2; 3} |> map x where x > 1 into x * 10"), "20;\n30;\n\n");
    assert_eq!(text(&mut state, "{[1, 2]}"), "[1, 2, ];\n\n");
}

#[test]
fn vars_lists_bound_names() {
    let mut state = State::new();
    text(&mut state, "let b = 1; a = 2");
    let names: Vec<String> = state.vars().iter().map(|i| i.to_string()).collect();
    assert_eq!(names, vec!["a".to_string(), "b".to_string()]);
}

#[test]
fn refused_commands_keep_bindings() {
    let mut state = State::new();
    text(&mut state, "let x = 1");
    assert!(matches!(run(&mut state, "let x = y"), Err(ReplError::EvalError)));
    assert!(matches!(run(&mut state, "let [a] = 5"), Err(ReplError::MatchError)));
    assert_eq!(text(&mut state, "z = 3"), "z = 3;\n\n");
    assert_eq!(text(&mut state, ".env"), "x = 1;\n\n");
}

#[test]
fn let_overrides_earlier_bindings() {
    let mut state = State::new();
    text(&mut state, "let x = 1; y = 2");
    assert_eq!(text(&mut state, "let x = 10"), "x = 10;\n\n");
    assert_eq!(text(&mut state, ".env"), "x = 10;\ny = 2;\n\n");
    assert_eq!(text(&mut state, "x + y"), "12;\n\n");
}
