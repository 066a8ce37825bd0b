use damasc::parser::assignment::assignment_set1_all_consuming;

const CYCLES: &[&str] = &[
    "x = y; y = x",
    "a = b + 1; b = c; c = a",
    "[p, q] = [q, 1]; q = p",
];

#[test]
fn test_topology_fail() {
    for line in CYCLES {
        let Some(assignment) = assignment_set1_all_consuming(line) else {
            unreachable!("Can not parse assignments");
        };

        assert!(matches!(assignment.sort_topological(&Vec::new()), Err(_)), "{}", line);
    }
}
