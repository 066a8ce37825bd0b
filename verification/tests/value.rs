use damasc::parser::value::single_value;

const VALUES: &str = "null
1
-5
\"hello world\"
true
false
[]
[1, 2, [3]]
{}
{a:1, b:[true, null]}
{name:\"x\", nested:{deep:[1, {}]},}
Integer
[ 1 , 2 , ]

String";

#[test]
fn test_value_parsing() {
    for (number, line) in VALUES.lines().filter(|l| !l.is_empty()).enumerate() {
        assert!(single_value(line).is_some(), "could not parse line {}", number + 1);
    }
}
