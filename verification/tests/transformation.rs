use damasc::query::iter::MultiProjectionIterator;
use damasc::query::parser::{query_bag_allow_empty_all_consuming, transformation_all_consuming};
use damasc::runtime::env::Environment;
use damasc::runtime::evaluation::Evaluation;
use damasc::value::{value_eq, Value};

const EXAMPLES: &str = "{1; 2; 3} |> map x where x > 1 into x * 10
{20; 30}
---
{1; 2} |> map x; y into x + y
{3; 3}
---
{1; 2}
{1; 2}
---
{[1, 2]; 3} |> map [a, b]
{[1, 2]}
---
{1; 2; 3} |> map x where x == 2
{2}
---
{\"a\"; 5} |> map x is Integer into x
{5}
---
{1} |> map x where x > 1
{}
---
{1; 2} |> map x into x; x * 10
{1; 10; 2; 20}
---";

#[test]
fn test_transformation() {
    let lines: Vec<&str> = EXAMPLES.lines().collect();

    for chunk in lines.chunks(3) {
        let [trans, res, delimiter] = [chunk[0], chunk[1], chunk[2]];
        assert_eq!(delimiter, "---");
        let Some(transformation) = transformation_all_consuming(trans) else {
            unreachable!("Transformation parse error");
        };
        let Some(result) = query_bag_allow_empty_all_consuming(res) else {
            unreachable!("Transformation parse error");
        };

        let env = Environment::new();
        let evaluation = Evaluation::new(&env);
        let Some(result_values) = result
            .expressions
            .iter()
            .map(|e| evaluation.eval_expr(e))
            .collect::<Result<Vec<Value>, _>>()
            .ok()
        else {
            unreachable!("Result Eval error");
        };

        let items: Vec<Value> = transformation
            .bag
            .expressions
            .iter()
            .filter_map(|e| evaluation.eval_expr(e).ok())
            .collect();
        let mut trans_iterator = MultiProjectionIterator::new(Environment::new(), transformation.projection, items);
        let mut transform_result: Vec<Value> = Vec::new();
        while let Some(r) = trans_iterator.next() {
            if let Ok(values) = r {
                transform_result.extend(values);
            }
        }

        assert_eq!(transform_result.len(), result_values.len(), "{}", trans);
        for (a, b) in transform_result.iter().zip(result_values.iter()) {
            assert!(value_eq(a, b), "{}", trans);
        }
    }
}

#[test]
fn permutations_come_in_lexicographic_order() {
    let transformation = transformation_all_consuming("{1; 2; 3} |> map x; y into x * 10 + y").unwrap();
    let env = Environment::new();
    let evaluation = Evaluation::new(&env);
    let items: Vec<Value> = transformation.bag.expressions.iter().filter_map(|e| evaluation.eval_expr(e).ok()).collect();
    let mut it = MultiProjectionIterator::new(Environment::new(), transformation.projection, items);
    let mut got: Vec<i64> = Vec::new();
    while let Some(r) = it.next() {
        for v in r.ok().unwrap() {
            match v {
                Value::Integer(i) => got.push(i),
                _ => panic!("an integer is projected"),
            }
        }
    }
    assert_eq!(got, vec![12, 13, 21, 23, 31, 32]);
    let four = transformation_all_consuming("{1; 2; 3; 4} |> map a; b; c into a * 100 + b * 10 + c").unwrap();
    let items: Vec<Value> = four.bag.expressions.iter().filter_map(|e| evaluation.eval_expr(e).ok()).collect();
    let mut it = MultiProjectionIterator::new(Environment::new(), four.projection, items);
    let mut got: Vec<i64> = Vec::new();
    while let Some(r) = it.next() {
        for v in r.ok().unwrap() {
            if let Value::Integer(i) = v {
                got.push(i);
            }
        }
    }
    let mut sorted = got.clone();
    sorted.sort();
    assert_eq!(got.len(), 24);
    assert_eq!(got, sorted);
}
