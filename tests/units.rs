use fm::{lex, Evaluator, Operators, Step};

fn strings(words: &[&str]) -> Vec<String> {
    words.iter().map(|w| w.to_string()).collect()
}

#[test]
fn lex_without_whitespace_is_identity() {
    let tokens = strings(&["(", "10", "-", "2", ")", "nrt", "3", ""]);
    assert_eq!(lex(&tokens), tokens);
}

#[test]
fn lex_of_nothing_is_nothing() {
    assert_eq!(lex(&[]), Vec::<String>::new());
}

#[test]
fn lex_splits_tokens_holding_spaces() {
    let tokens = strings(&["21 + 21", "*", "2"]);
    assert_eq!(lex(&tokens), strings(&["21", "+", "21", "*", "2"]));
}

#[test]
fn lex_drops_empty_pieces_between_whitespace() {
    let tokens = strings(&["  1\t+\n 2  "]);
    assert_eq!(lex(&tokens), strings(&["1", "+", "2"]));
}

#[test]
fn lex_of_whitespace_only_token_is_nothing() {
    let tokens = strings(&["1", "   ", "2"]);
    assert_eq!(lex(&tokens), strings(&["1", "2"]));
}

#[test]
fn lex_keeps_non_ascii_words() {
    let tokens = strings(&["é + ü"]);
    assert_eq!(lex(&tokens), strings(&["é", "+", "ü"]));
}

#[test]
fn operator_table() {
    assert_eq!(Operators::from_token("+"), Operators::Add);
    assert_eq!(Operators::from_token("-"), Operators::Subtract);
    assert_eq!(Operators::from_token("*"), Operators::Multiply);
    assert_eq!(Operators::from_token("/"), Operators::Divide);
    assert_eq!(Operators::from_token("%"), Operators::Modulo);
    assert_eq!(Operators::from_token("^"), Operators::Exponent);
    assert_eq!(Operators::from_token("!"), Operators::Factorial);
    assert_eq!(Operators::from_token("nrt"), Operators::NRoot);
    assert_eq!(Operators::from_token("log"), Operators::Logarithm);
}

#[test]
fn unknown_words_name_no_operator() {
    assert_eq!(Operators::from_token("@"), Operators::Unimplemented);
    assert_eq!(Operators::from_token(""), Operators::Unimplemented);
    assert_eq!(Operators::from_token("++"), Operators::Unimplemented);
    assert_eq!(Operators::from_token("lo"), Operators::Unimplemented);
    assert_eq!(Operators::from_token("logs"), Operators::Unimplemented);
    assert_eq!(Operators::from_token("("), Operators::Unimplemented);
}

#[test]
fn from_token_accepts_an_owned_string() {
    let word = String::from("nrt");
    assert_eq!(Operators::from_token(&word), Operators::NRoot);
}

#[test]
fn evaluator_starts_with_nothing_pending() {
    assert_eq!(Evaluator::new().pending, None);
}

#[test]
fn first_operand_is_loaded() {
    let mut ev = Evaluator::new();
    assert_eq!(ev.on_number(true), Step::Load);
    assert_eq!(ev.pending, None);
}

#[test]
fn operand_without_pending_operator_is_dropped() {
    let mut ev = Evaluator::new();
    assert_eq!(ev.on_number(false), Step::Drop);
    assert_eq!(ev.pending, None);
}

#[test]
fn binary_operator_waits_for_its_operand() {
    let mut ev = Evaluator::new();
    assert_eq!(ev.on_operator(Operators::Multiply), Step::Hold);
    assert_eq!(ev.pending, Some(Operators::Multiply));
    assert_eq!(ev.on_number(false), Step::Apply(Operators::Multiply));
    assert_eq!(ev.pending, None);
}

#[test]
fn later_operator_replaces_the_pending_one() {
    let mut ev = Evaluator::new();
    ev.on_operator(Operators::Add);
    ev.on_operator(Operators::Exponent);
    assert_eq!(ev.on_number(true), Step::Apply(Operators::Exponent));
}

#[test]
fn factorial_acts_at_once_and_keeps_the_pending_operator() {
    let mut ev = Evaluator::new();
    assert_eq!(ev.on_operator(Operators::Factorial), Step::Factorial);
    assert_eq!(ev.pending, None);
    ev.on_operator(Operators::Subtract);
    assert_eq!(ev.on_operator(Operators::Factorial), Step::Factorial);
    assert_eq!(ev.pending, Some(Operators::Subtract));
}

#[test]
fn unimplemented_operator_is_rejected() {
    let mut ev = Evaluator::new();
    ev.on_operator(Operators::Divide);
    assert_eq!(ev.on_operator(Operators::Unimplemented), Step::Reject);
    assert_eq!(ev.pending, Some(Operators::Divide));
}

#[test]
fn operators_convert_from_words() {
    assert_eq!(Operators::from("log"), Operators::Logarithm);
    let op: Operators = "^".into();
    assert_eq!(op, Operators::Exponent);
    let none: Operators = "pow".into();
    assert_eq!(none, Operators::Unimplemented);
}
