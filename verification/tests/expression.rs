use damasc::parser::expression::expression_many1_all_consuming;
use damasc::runtime::env::Environment;
use damasc::runtime::evaluation::Evaluation;
use damasc::value::value_eq;

const PAIRS: &str = "1 + 2; 3 * 4
3; 12
---
2 ^ 10
1024
---
10 / 3; 10 % 3
3; 1
---
-(5 - 8)
3
---
[1, 2, ...[3, 4]]
[1, 2, 3, 4]
---
{a: 1, ...{b: 2}}
{a: 1, b: 2}
---
{a: 1, [\"b\"]: 2}.b
2
---
\"ab\" == \"ab\"; 1 < 2 && 2 < 1
true; false
---
if 1 > 0 { \"yes\" } else { \"no\" }
\"yes\"
---
(fn x => x + 1).(41)
42
---
[x * 2 for x in [1, 2, 3]]
[2, 4, 6]
---
type(5); type([])
Integer; Array
---
5 is Integer; 5 is String
true; false
---
length([1, 2, 3])
3
---
match 5 { 5 => \"five\", _ => \"other\" }
\"five\"
---
`a${1 + 1}b`
\"a2b\"
---";

#[test]
fn test_expression_parsing() {
    for line in PAIRS.lines().filter(|l| l != &"---") {
        assert!(expression_many1_all_consuming(line).is_some(), "{}", line);
    }
}

#[test]
fn test_expression_evaluation() {
    let lines: Vec<(usize, &str)> = PAIRS.lines().enumerate().collect();

    for chunk in lines.chunks(3) {
        let [(line_a, a), (line_b, b), (_, sep)] = [chunk[0], chunk[1], chunk[2]];
        assert_eq!(sep, "---");
        let Some(a) = expression_many1_all_consuming(a) else {
            panic!("Parse error at line {}: {}", line_a + 1, a);
        };
        let Some(b) = expression_many1_all_consuming(b) else {
            panic!("Parse error at line {}: {}", line_b + 1, b);
        };

        for (a, b) in a.expressions.iter().zip(b.expressions.iter()) {
            let env = Environment::new();
            let eval = Evaluation::new(&env);
            let Ok(res_a) = eval.eval_expr(a) else {
                panic!("Evaluation error at line {}: {}", line_a + 1, a.to_string());
            };
            let Ok(res_b) = eval.eval_expr(b) else {
                panic!("Evaluation error at line {}: {}", line_b + 1, b.to_string());
            };
            assert!(value_eq(&res_a, &res_b), "on line {} and {}", line_a + 1, line_b + 1);
        }
    }
}
