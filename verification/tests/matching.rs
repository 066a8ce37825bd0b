use damasc::parser::assignment::assignment_set1_all_consuming;
use damasc::runtime::assignment::AssignmentEvaluation;
use damasc::runtime::env::Environment;

const MISMATCHES: &[&str] = &[
    "5 = 6",
    "[a] = [1, 2]",
    "[a, b, c] = [1, 2]",
    "{a: 1} = {a: 2}",
    "{a} = {b: 1}",
    "x is String = 5",
    "_ is Boolean = null",
    "x = 1; x = 2",
];

#[test]
fn test_matching_fail() {
    for line in MISMATCHES {
        let Some(assignment) = assignment_set1_all_consuming(line) else {
            unreachable!("Can not parse assignments");
        };

        let env = Environment::new();
        let assignment_eval = AssignmentEvaluation::new(&env);

        assert!(matches!(assignment_eval.eval_assigment_set(assignment), Err(_)), "{}", line);
    }
}
