use fm::{lex, parse, Evaluator, Item, Operators, ParseError, Step};

fn strings(words: &[&str]) -> Vec<String> {
    words.iter().map(|w| w.to_string()).collect()
}

fn numeric(tokens: &[String]) -> Vec<bool> {
    tokens.iter().map(|t| t.parse::<f64>().is_ok()).collect()
}

fn classify(words: &[&str]) -> Result<Vec<Item>, ParseError> {
    let tokens = lex(&strings(words));
    let flags = numeric(&tokens);
    parse(&tokens, &flags)
}

fn factorial(x: f64) -> f64 {
    let mut product = 1.0;
    let mut k = 2.0;
    while k <= x.floor() {
        product *= k;
        k += 1.0;
    }
    product
}

fn apply(acc: f64, op: Operators, n: f64) -> f64 {
    match op {
        Operators::Add => acc + n,
        Operators::Subtract => acc - n,
        Operators::Multiply => acc * n,
        Operators::Divide => acc / n,
        Operators::Modulo => acc % n,
        Operators::Exponent => acc.powf(n),
        Operators::Logarithm => acc.log(n),
        Operators::NRoot => acc.powf(1.0 / n),
        Operators::Factorial | Operators::Unimplemented => panic!("not a binary operator"),
    }
}

fn value(items: &[Item]) -> f64 {
    let mut acc = 0.0;
    let mut ev = Evaluator::new();
    for item in items {
        let operand = match item {
            Item::Number(t) => t.parse::<f64>().unwrap(),
            Item::Group(inner) => value(inner),
            Item::Operator(op) => {
                match ev.on_operator(*op) {
                    Step::Factorial => acc = factorial(acc),
                    Step::Reject => panic!("operator rejected"),
                    _ => {}
                }
                continue;
            }
        };
        match ev.on_number(acc == 0.0) {
            Step::Load => acc = operand,
            Step::Apply(op) => acc = apply(acc, op, operand),
            _ => {}
        }
    }
    acc
}

fn evaluate(words: &[&str]) -> f64 {
    value(&classify(words).unwrap())
}

#[test]
fn adds_two_numbers() {
    assert_eq!(evaluate(&["2", "+", "3"]), 5.0);
}

#[test]
fn evaluates_left_to_right_without_precedence() {
    assert_eq!(evaluate(&["10", "-", "2", "*", "3"]), 24.0);
}

#[test]
fn raises_to_a_power() {
    assert_eq!(evaluate(&["2", "^", "10"]), 1024.0);
}

#[test]
fn factorial_replaces_the_accumulator() {
    assert_eq!(evaluate(&["4", "!"]), 24.0);
}

#[test]
fn evaluates_a_parenthesised_group_first() {
    assert_eq!(evaluate(&["(", "1", "+", "2", ")", "*", "4"]), 12.0);
}

#[test]
fn evaluates_nested_groups() {
    assert_eq!(evaluate(&["(", "(", "1", "+", "1", ")", "*", "3", ")", "+", "1"]), 7.0);
}

#[test]
fn single_number_is_returned_unchanged() {
    assert_eq!(evaluate(&["42"]), 42.0);
    assert_eq!(evaluate(&["-3.5"]), -3.5);
}

#[test]
fn left_fold_over_many_operators() {
    assert_eq!(evaluate(&["1", "+", "2", "*", "3", "-", "4", "/", "5"]), 1.0);
}

#[test]
fn compound_argument_is_split_before_evaluation() {
    assert_eq!(evaluate(&["21 + 21 + 21"]), 63.0);
}

#[test]
fn remaining_operators() {
    assert_eq!(evaluate(&["7", "%", "4"]), 3.0);
    assert_eq!(evaluate(&["-7", "%", "4"]), -3.0);
    assert_eq!(evaluate(&["27", "nrt", "3"]), 27.0f64.powf(1.0 / 3.0));
    assert_eq!(evaluate(&["8", "log", "2"]), 8.0f64.log(2.0));
    assert!((evaluate(&["8", "log", "2"]) - 3.0).abs() < 1e-12);
    assert_eq!(evaluate(&["1", "/", "0"]), f64::INFINITY);
}

#[test]
fn operand_without_operator_is_dropped() {
    assert_eq!(evaluate(&["2", "3"]), 2.0);
}

#[test]
fn operand_after_zero_accumulator_is_loaded() {
    assert_eq!(evaluate(&["2", "-", "2", "5"]), 5.0);
}

#[test]
fn unrecognized_symbol_is_rejected() {
    assert_eq!(classify(&["2", "@", "3"]), Err(ParseError::Malformed(1)));
}

#[test]
fn stray_closing_parenthesis_is_rejected() {
    assert_eq!(classify(&["1", ")"]), Err(ParseError::Malformed(1)));
}

#[test]
fn unclosed_group_is_rejected() {
    assert_eq!(classify(&["1", "+", "(", "2", "*", "3"]), Err(ParseError::Unbalanced(2)));
    assert_eq!(classify(&["(", "(", "1", ")"]), Err(ParseError::Unbalanced(0)));
}

#[test]
fn error_inside_a_group_is_reported_at_its_position() {
    assert_eq!(classify(&["(", "1", "?", ")"]), Err(ParseError::Malformed(2)));
}

#[test]
fn first_error_in_reading_order_wins() {
    assert_eq!(classify(&["x", "(", "1"]), Err(ParseError::Malformed(0)));
}

#[test]
fn classifies_numbers_and_operators() {
    let expected = vec![
        Item::Number("2".to_string()),
        Item::Operator(Operators::Add),
        Item::Number("3".to_string()),
    ];
    assert_eq!(classify(&["2", "+", "3"]), Ok(expected));
}

#[test]
fn group_holds_the_tokens_strictly_inside_the_parentheses() {
    let expected = vec![
        Item::Group(vec![
            Item::Number("1".to_string()),
            Item::Operator(Operators::Add),
            Item::Group(vec![Item::Number("2".to_string())]),
        ]),
        Item::Operator(Operators::Multiply),
        Item::Number("4".to_string()),
    ];
    assert_eq!(classify(&["(", "1", "+", "(", "2", ")", ")", "*", "4"]), Ok(expected));
}

#[test]
fn empty_group_is_classified_as_empty() {
    assert_eq!(classify(&["(", ")"]), Ok(vec![Item::Group(vec![])]));
}

#[test]
fn empty_input_classifies_to_nothing() {
    assert_eq!(classify(&[]), Ok(vec![]));
}

#[test]
fn numeric_flag_takes_precedence() {
    let tokens = strings(&["+", "1"]);
    let flags = vec![true, true];
    let expected = vec![Item::Number("+".to_string()), Item::Number("1".to_string())];
    assert_eq!(parse(&tokens, &flags), Ok(expected));
}
