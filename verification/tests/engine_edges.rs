use mtlang::compile::compile_source;
use mtlang::engine::{initial_state, step, Defect, Query, Reply, RuntimeError, StepResult};
use mtlang::labels::create_labels;
use mtlang::opcode::Operation;
use mtlang::store::NamedTable;
use mtlang::token::Token;

fn token(op: Operation, name: &str, args: Vec<&str>) -> Token {
    Token {
        op,
        nargs: args.len(),
        name: name.to_string(),
        args: args.iter().map(|s| s.to_string()).collect(),
    }
}

#[test]
fn running_past_the_end_is_a_defect() {
    let prog: Vec<Token> = Vec::new();
    let labels: NamedTable<usize> = NamedTable::new();
    let mut st = initial_state();
    let r = step(&mut st, &prog, &labels, None);
    assert!(matches!(r, StepResult::Defect(Defect::NoToken)));
}

#[test]
fn executing_an_invalid_token_is_a_defect() {
    let cp = compile_source("invalidopcode.");
    assert_eq!(cp.errors.len(), 1);
    let (labels, _) = create_labels(&cp.tokens);
    let mut st = initial_state();
    let r = step(&mut st, &cp.tokens, &labels, None);
    assert!(matches!(r, StepResult::Defect(Defect::InvalidOperation)));
}

#[test]
fn branch_with_empty_name_is_fatal() {
    let prog = vec![
        token(Operation::Branch, "", vec!["a", "b", "c"]),
        token(Operation::Exit, "", vec![]),
    ];
    let labels: NamedTable<usize> = NamedTable::new();
    let mut st = initial_state();
    let r = step(&mut st, &prog, &labels, None);
    assert!(matches!(r, StepResult::Fatal(RuntimeError::EmptyBranchName)));
}

#[test]
fn input_mode_word_without_characters_is_a_defect() {
    // Two spaces after `i` make the first argument an empty word.
    let cp = compile_source("i  invr.");
    assert!(cp.errors.is_empty());
    let (labels, _) = create_labels(&cp.tokens);
    let mut st = initial_state();
    let r = step(&mut st, &cp.tokens, &labels, None);
    assert!(matches!(r, StepResult::Defect(Defect::InputWithoutChars)));
}

#[test]
fn var_mode_word_without_characters_is_a_defect() {
    let cp = compile_source("vrbl  text.");
    assert!(cp.errors.is_empty());
    let (labels, _) = create_labels(&cp.tokens);
    let mut st = initial_state();
    let r = step(&mut st, &cp.tokens, &labels, None);
    assert!(matches!(r, StepResult::Defect(Defect::VarWithoutChars)));
}

#[test]
fn a_reply_without_a_pending_query_is_a_defect() {
    let cp = compile_source("P newl.");
    assert!(cp.errors.is_empty());
    let (labels, _) = create_labels(&cp.tokens);
    let mut st = initial_state();
    let r = step(&mut st, &cp.tokens, &labels, Some(Reply::Bits(0)));
    assert!(matches!(r, StepResult::Defect(Defect::UnexpectedReply)));
}

#[test]
fn an_ill_typed_reply_is_a_defect() {
    let cp = compile_source("zero Zero.div zero zero zero.");
    assert!(cp.errors.is_empty());
    let (labels, _) = create_labels(&cp.tokens);
    let mut st = initial_state();
    // Declare the variable `zero`.
    let r1 = step(&mut st, &cp.tokens, &labels, None);
    let bits = match r1 {
        StepResult::Ask(Query::ParseDecimal { text }) => {
            text.parse::<f64>().unwrap().to_bits()
        }
        _ => panic!("expected a parse query"),
    };
    let r2 = step(&mut st, &cp.tokens, &labels, Some(Reply::Bits(bits)));
    assert!(matches!(r2, StepResult::Continue));
    // The division asks for a zero test; answer with text instead.
    let r3 = step(&mut st, &cp.tokens, &labels, None);
    assert!(matches!(r3, StepResult::Ask(Query::IsZero { .. })));
    let r4 = step(&mut st, &cp.tokens, &labels, Some(Reply::Text("no".to_string())));
    assert!(matches!(r4, StepResult::Defect(Defect::UnexpectedReply)));
}

#[test]
fn halting_is_idempotent() {
    let cp = compile_source("P newl.");
    assert!(cp.errors.is_empty());
    let (labels, _) = create_labels(&cp.tokens);
    let mut st = initial_state();
    let r1 = step(&mut st, &cp.tokens, &labels, None);
    let line = match r1 {
        StepResult::Ask(Query::Render { .. }) => panic!("newline is a string"),
        StepResult::Output(line) => line,
        _ => panic!("expected output"),
    };
    assert_eq!(line, "\n".to_string());
    assert!(matches!(step(&mut st, &cp.tokens, &labels, None), StepResult::Halted));
    assert!(matches!(step(&mut st, &cp.tokens, &labels, None), StepResult::Halted));
}
