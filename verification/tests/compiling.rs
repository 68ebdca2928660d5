use mtlang::compile::compile_source;
use mtlang::labels::{create_labels, CompileWarning};
use mtlang::opcode::Operation;
use mtlang::token::LineParseErrorTypes;

#[test]
fn exit_token_closes_every_program() {
    let cp = compile_source("P newl.");
    assert!(cp.errors.is_empty());
    assert!(!cp.missing_dot);
    assert_eq!(cp.tokens.len(), 2);
    assert_eq!(cp.tokens[0].op, Operation::Print);
    assert_eq!(cp.tokens[1].op, Operation::Exit);
}

#[test]
fn missing_final_separator_only_warns() {
    let cp = compile_source("P newl");
    assert!(cp.missing_dot);
    assert!(cp.errors.is_empty());
    assert_eq!(cp.tokens.len(), 2);
    assert_eq!(cp.tokens[0].op, Operation::Print);
}

#[test]
fn errors_are_collected_and_indexes_stay_aligned() {
    let cp = compile_source("invalidopcode.P newl..P dott.");
    assert_eq!(cp.errors.len(), 2);
    assert_eq!(cp.errors[0].index, 0);
    assert_eq!(cp.errors[0].error.typ, LineParseErrorTypes::UnknownOperation);
    assert_eq!(cp.errors[0].line, "invalidopcode".to_string());
    assert_eq!(cp.errors[1].index, 2);
    assert_eq!(cp.errors[1].error.typ, LineParseErrorTypes::NoOpcodeProvided);
    // The failed statements still hold a place in the program.
    assert_eq!(cp.tokens.len(), 5);
    assert_eq!(cp.tokens[0].op, Operation::Invalid);
    assert_eq!(cp.tokens[1].op, Operation::Print);
    assert_eq!(cp.tokens[2].op, Operation::Invalid);
    assert_eq!(cp.tokens[3].op, Operation::Print);
    assert_eq!(cp.tokens[4].op, Operation::Exit);
}

#[test]
fn duplicate_label_keeps_first_index_and_warns() {
    let cp = compile_source("mylab1.P dott.mylab1.");
    assert!(cp.errors.is_empty());
    let (labels, warnings) = create_labels(&cp.tokens);
    assert_eq!(labels.get(&"mylab1".to_string()), Some(&0usize));
    assert_eq!(warnings.len(), 1);
    match &warnings[0] {
        CompileWarning::DuplicateLabel { index, name } => {
            assert_eq!(*index, 2);
            assert_eq!(name, &"mylab1".to_string());
        }
        _ => panic!("expected a duplicate-label warning"),
    }
}

#[test]
fn label_with_arguments_warns_but_registers() {
    let cp = compile_source("mylab1 stray args.");
    let (labels, warnings) = create_labels(&cp.tokens);
    assert_eq!(labels.get(&"mylab1".to_string()), Some(&0usize));
    assert_eq!(warnings.len(), 1);
    assert!(matches!(&warnings[0], CompileWarning::LabelWithArgs { index: 0 }));
}

#[test]
fn warning_messages_match_their_kind() {
    let w = CompileWarning::LabelWithArgs { index: 3 };
    assert_eq!(
        w.message(),
        "You have a label with more than zero arguments.".to_string()
    );
    assert_eq!(w.index(), 3);
    let d = CompileWarning::DuplicateLabel { index: 7, name: "mylab1".to_string() };
    assert_eq!(
        d.message(),
        "You are defining the label `mylab1` more than once!".to_string()
    );
    assert_eq!(d.index(), 7);
}
