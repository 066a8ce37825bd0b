use damasc::parser::assignment::assignment_set1_all_consuming;
use damasc::runtime::assignment::AssignmentEvaluation;
use damasc::runtime::env::Environment;

const EXAMPLES: &[&str] = &[
    "x = 5",
    "x = 5; y = x + 1",
    "z = y * 2; y = 3",
    "[a, b] = [1, 2]",
    "{name} = {name: \"damasc\"}",
    "{name: n, ...} = {name: \"x\", age: 3}",
    "[first, ...rest] = [1, 2, 3]",
    "n is Integer = 40 + 2",
    "s @ [_, _] = [true, false];",
    "f = fn x => x * 2; r = f.(21)",
];

#[test]
fn test_assignment_set_parsing() {
    for line in EXAMPLES {
        assert!(assignment_set1_all_consuming(line).is_some(), "{}", line);
    }
}

#[test]
fn test_assignment_set_evaluation() {
    for (line_number, line) in EXAMPLES.iter().enumerate() {
        if let Some(assignment) = assignment_set1_all_consuming(line) {
            let Ok(sorted) = assignment.sort_topological(&Vec::new()) else {
                unreachable!("Unexpected cyclic dependency in assignments");
            };

            let env = Environment::new();
            let assignment_eval = AssignmentEvaluation::new(&env);

            assert!(
                matches!(assignment_eval.eval_assigment_set(sorted), Ok(_)),
                "Failing assignment on line {}",
                line_number + 1
            );
        }
    }
}
