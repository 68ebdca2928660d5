use mtlang::opcode::Operation;
use mtlang::token::{tokenize_text_code, LineParseError, LineParseErrorTypes, Token};

#[test]
fn invalid_opcode() {
    let example_program: &str = "invalidopcode";
    let token: Result<Token, LineParseError> = tokenize_text_code(example_program);
    match token {
        Ok(_) => {
            panic!()
        }
        Err(e) => {
            assert_eq!(e.typ, LineParseErrorTypes::UnknownOperation);
        }
    }
}

#[test]
fn print_opcode() {
    let example_program: &str = "  T alpha beta gamma  ";
    let token: Result<Token, LineParseError> = tokenize_text_code(example_program);
    match token {
        Err(_) => {
            panic!();
        }
        Ok(t) => {
            assert_eq!(t.op, Operation::Print);
            assert_eq!(t.nargs, 3);
            let expected: Vec<String> = vec![
                "alpha".to_string(),
                "beta".to_string(),
                "gamma".to_string(),
            ];
            assert_eq!(t.args, expected);
        }
    }
}

#[test]
fn add_opcode() {
    let ex1: &str = "Bd";
    let tok1: Token = tokenize_text_code(ex1).unwrap();

    let ex2: &str = " GZ hey duh";
    let tok2: Token = tokenize_text_code(ex2).unwrap();

    assert_eq!(tok1.op, Operation::Add);
    assert_eq!(tok2.op, Operation::Add);

    assert_eq!(tok1.nargs, 0);
    assert_eq!(tok2.nargs, 2);
}

#[test]
fn sub_opcode() {
    let ex1: &str = "du";
    let tok1: Token = tokenize_text_code(ex1).unwrap();

    let ex2: &str = " bU hey duh";
    let tok2: Token = tokenize_text_code(ex2).unwrap();

    assert_eq!(tok1.op, Operation::Sub);
    assert_eq!(tok2.op, Operation::Sub);

    assert_eq!(tok1.nargs, 0);
    assert_eq!(tok2.nargs, 2);
}

#[test]
fn mul_opcode() {
    let ex: &str = "Hey you and me";
    let tok: Token = tokenize_text_code(ex).unwrap();
    assert_eq!(tok.op, Operation::Mul);
    assert_eq!(tok.nargs, 3);
}

#[test]
fn div_opcode() {
    let ex: &str = "all I want";
    let tok: Token = tokenize_text_code(ex).unwrap();
    assert_eq!(tok.op, Operation::Div);
    assert_eq!(tok.nargs, 2);
}

#[test]
fn var_opcode() {
    // Both an upper and a lower first letter select Var at length four.
    let ex1: &str = "Ball one";
    let ex2: &str = "hell zero";

    let tok1: Token = tokenize_text_code(ex1).unwrap();
    let tok2: Token = tokenize_text_code(ex2).unwrap();

    assert_eq!(tok1.op, Operation::Var);
    assert_eq!(tok2.op, Operation::Var);

    assert_eq!(tok1.nargs, 1);
    assert_eq!(tok2.nargs, 1);
}

#[test]
fn branch_opcode() {
    let ex1: &str = "GHIJK";
    let ex2: &str = "abcde";

    let tok1: Token = tokenize_text_code(ex1).unwrap();
    let tok2: Token = tokenize_text_code(ex2).unwrap();

    assert_eq!(tok1.op, Operation::Branch);
    assert_eq!(tok2.op, Operation::Branch);

    assert_eq!(tok1.nargs, 0);
    assert_eq!(tok2.nargs, 0);
}

#[test]
fn label_opcode() {
    let ex1: &str = "GHklKh";
    let ex2: &str = "abcdeE";

    let tok1: Token = tokenize_text_code(ex1).unwrap();
    let tok2: Token = tokenize_text_code(ex2).unwrap();

    assert_eq!(tok1.op, Operation::Label);
    assert_eq!(tok2.op, Operation::Label);

    assert_eq!(tok1.nargs, 0);
    assert_eq!(tok2.nargs, 0);
}

#[test]
fn absent_signatures_are_unknown() {
    for w in ["abcdefg", "AbCdEfGh", "zzzzzzzzz"] {
        match tokenize_text_code(w) {
            Ok(_) => panic!(),
            Err(e) => assert_eq!(e.typ, LineParseErrorTypes::UnknownOperation),
        }
    }
}

#[test]
fn blank_lines_give_no_opcode() {
    for w in ["", "   ", "\t \n "] {
        match tokenize_text_code(w) {
            Ok(_) => panic!(),
            Err(e) => assert_eq!(e.typ, LineParseErrorTypes::NoOpcodeProvided),
        }
    }
}

#[test]
fn name_keeps_original_case() {
    let t = tokenize_text_code("PrInT one two").unwrap();
    assert_eq!(t.op, Operation::Branch);
    assert_eq!(t.name, "PrInT".to_string());
    assert_eq!(t.nargs, 2);
}

#[test]
fn consecutive_spaces_make_empty_args() {
    let t = tokenize_text_code("T alpha  beta").unwrap();
    assert_eq!(t.op, Operation::Print);
    assert_eq!(t.nargs, 3);
    let expected: Vec<String> = vec!["alpha".to_string(), "".to_string(), "beta".to_string()];
    assert_eq!(t.args, expected);
}
