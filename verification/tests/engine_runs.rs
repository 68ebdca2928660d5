use mtlang::compile::compile_source;
use mtlang::engine::{
    initial_state, step, ArithOp, Comparator, ExecState, Query, Reply, RuntimeError, StepResult,
};
use mtlang::labels::create_labels;
use mtlang::store::Value;
use mtlang::token::Token;

enum End {
    Halted,
    Fatal(RuntimeError),
    Mismatch,
}

// The engine never touches a double-precision number itself: it asks.  This
// driver answers its queries with the real operations.
fn answer(q: Query, inputs: &mut Vec<String>) -> Reply {
    match q {
        Query::Arith { op, a, b } => {
            let x = f64::from_bits(a);
            let y = f64::from_bits(b);
            let r = match op {
                ArithOp::Add => x + y,
                ArithOp::Sub => x - y,
                ArithOp::Mul => x * y,
                ArithOp::Div => x / y,
            };
            Reply::Bits(r.to_bits())
        }
        Query::Compare { cmp, a, b } => {
            let x = f64::from_bits(a);
            let y = f64::from_bits(b);
            Reply::Truth(match cmp {
                Comparator::Equal => x == y,
                Comparator::Less => x < y,
                Comparator::Greater => x > y,
            })
        }
        Query::IsZero { a } => Reply::Truth(f64::from_bits(a) == 0.0),
        Query::Render { a } => Reply::Text(f64::from_bits(a).to_string()),
        Query::ParseDecimal { text } => Reply::Bits(text.parse::<f64>().unwrap().to_bits()),
        Query::ParseInput { text } => Reply::MaybeBits(text.parse::<f64>().ok().map(f64::to_bits)),
        Query::ReadLine => Reply::Text(inputs.remove(0)),
    }
}

fn run(src: &str, inputs: Vec<&str>) -> (Vec<String>, End, ExecState, Vec<Token>) {
    let cp = compile_source(src);
    assert!(cp.errors.is_empty());
    let (labels, _warnings) = create_labels(&cp.tokens);
    let mut st = initial_state();
    let mut ins: Vec<String> = inputs.iter().map(|s| s.to_string()).collect();
    let mut outputs: Vec<String> = Vec::new();
    let mut reply: Option<Reply> = None;
    loop {
        match step(&mut st, &cp.tokens, &labels, reply.take()) {
            StepResult::Continue => {}
            StepResult::Output(line) => outputs.push(line),
            StepResult::Ask(q) => {
                reply = Some(answer(q, &mut ins));
            }
            StepResult::InputMismatch => return (outputs, End::Mismatch, st, cp.tokens),
            StepResult::Halted => return (outputs, End::Halted, st, cp.tokens),
            StepResult::Fatal(e) => return (outputs, End::Fatal(e), st, cp.tokens),
            StepResult::Defect(d) => panic!("engine defect: {:?}", d),
        }
    }
}

fn num_of(st: &ExecState, name: &str) -> f64 {
    match st.vars.get(&name.to_string()) {
        Some(Value::Num(b)) => f64::from_bits(*b),
        _ => panic!("expected a number"),
    }
}

fn str_of(st: &ExecState, name: &str) -> String {
    match st.vars.get(&name.to_string()) {
        Some(Value::Str(s)) => s.clone(),
        _ => panic!("expected a string"),
    }
}

#[test]
fn prints_numeric_variable_decimal_rendering() {
    let (out, end, _, _) = run("nmbr Nine seven three.P nmbr.", vec![]);
    assert!(matches!(end, End::Halted));
    assert_eq!(out, vec!["973".to_string()]);
}

#[test]
fn prints_builtin_constants() {
    let (out, end, _, _) = run("P newl spce dott.", vec![]);
    assert!(matches!(end, End::Halted));
    assert_eq!(out, vec!["\n .".to_string()]);
}

#[test]
fn arithmetic_all_four_operations() {
    let (out, end, _, _) = run(
        "vala Nine.valb Three.Ad vala valb sums.P sums.ad vala valb sums.P sums.Mul vala valb sums.P sums.div vala valb sums.P sums.",
        vec![],
    );
    assert!(matches!(end, End::Halted));
    assert_eq!(
        out,
        vec!["12".to_string(), "6".to_string(), "27".to_string(), "3".to_string()]
    );
}

#[test]
fn zero_division_aborts_and_destination_keeps_value() {
    let (out, end, st, _) = run("zero Zero.dest Nine.div dest zero dest.", vec![]);
    assert!(matches!(end, End::Fatal(RuntimeError::ZeroDivisionError)));
    assert!(out.is_empty());
    assert_eq!(num_of(&st, "dest"), 9.0);
}

#[test]
fn branch_taken_runs_from_label() {
    let (out, end, _, _) = run(
        "vara One.varb One.equal vara varb mylab1.P spce.mylab1.P dott.",
        vec![],
    );
    assert!(matches!(end, End::Halted));
    assert_eq!(out, vec![".".to_string()]);
}

#[test]
fn branch_not_taken_falls_through() {
    let (out, end, _, _) = run(
        "vara One.varb Two.equal vara varb mylab1.P spce.mylab1.P dott.",
        vec![],
    );
    assert!(matches!(end, End::Halted));
    assert_eq!(out, vec![" ".to_string(), ".".to_string()]);
}

#[test]
fn branch_less_and_greater() {
    let (out, end, _, _) = run(
        "vara One.varb Two.lessy vara varb mylab1.P spce.mylab1.P dott.",
        vec![],
    );
    assert!(matches!(end, End::Halted));
    assert_eq!(out, vec![".".to_string()]);

    let (out2, end2, _, _) = run(
        "vara One.varb Two.great vara varb mylab1.P spce.mylab1.P dott.",
        vec![],
    );
    assert!(matches!(end2, End::Halted));
    assert_eq!(out2, vec![" ".to_string(), ".".to_string()]);
}

#[test]
fn branch_to_undefined_label_aborts() {
    let (out, end, _, _) = run("vara One.varb One.equal vara varb nolab1.", vec![]);
    assert!(matches!(end, End::Fatal(RuntimeError::LabelNotFound)));
    assert!(out.is_empty());
}

#[test]
fn branch_string_equality_works() {
    let (out, end, _, _) = run(
        "strv hello.strw hello.equal strv strw mylab1.P spce.mylab1.P dott.",
        vec![],
    );
    assert!(matches!(end, End::Halted));
    assert_eq!(out, vec![".".to_string()]);
}

#[test]
fn branch_string_ordering_is_fatal() {
    let (_, end, _, _) = run(
        "strv hello.strw hello.lessy strv strw mylab1.mylab1.",
        vec![],
    );
    assert!(matches!(end, End::Fatal(RuntimeError::InvalidComparisonForTypes)));
}

#[test]
fn branch_mixed_types_are_fatal() {
    let (_, end, _, _) = run("strv hello.varb Two.equal strv varb mylab1.mylab1.", vec![]);
    assert!(matches!(end, End::Fatal(RuntimeError::VarsNotOfSameType)));
}

#[test]
fn branch_bad_selector_is_fatal() {
    let (_, end, _, _) = run("vara One.varb One.xxxxx vara varb mylab1.mylab1.", vec![]);
    assert!(matches!(end, End::Fatal(RuntimeError::InvalidBranchSelector)));
}

#[test]
fn redeclaring_number_as_string_is_fatal() {
    let (_, end, st, _) = run("vrbl One.vrbl some words.", vec![]);
    assert!(matches!(end, End::Fatal(RuntimeError::TypeChangeNumberToString)));
    assert_eq!(num_of(&st, "vrbl"), 1.0);
}

#[test]
fn redeclaring_string_as_number_is_fatal() {
    let (_, end, st, _) = run("vrbl some words.vrbl One.", vec![]);
    assert!(matches!(end, End::Fatal(RuntimeError::TypeChangeStringToNumber)));
    assert_eq!(str_of(&st, "vrbl"), "some words".to_string());
}

#[test]
fn storing_arithmetic_into_string_is_fatal() {
    let (_, end, st, _) = run("strv words.vala One.valb Two.Ad vala valb strv.", vec![]);
    assert!(matches!(end, End::Fatal(RuntimeError::StoringToString)));
    assert_eq!(str_of(&st, "strv"), "words".to_string());
}

#[test]
fn var_joins_words_with_spaces() {
    let (out, end, st, _) = run("strv some words here.P strv.", vec![]);
    assert!(matches!(end, End::Halted));
    assert_eq!(out, vec!["some words here".to_string()]);
    assert_eq!(str_of(&st, "strv"), "some words here".to_string());
}

#[test]
fn var_without_arguments_is_fatal() {
    let (_, end, _, _) = run("vrbl.", vec![]);
    assert!(matches!(end, End::Fatal(RuntimeError::VarMissingArgs)));
}

#[test]
fn var_with_bad_number_word_is_fatal() {
    let (_, end, _, _) = run("nmbr Bogus.", vec![]);
    assert!(matches!(
        end,
        End::Fatal(RuntimeError::NumberParse(
            mtlang::number::NumberParseError::InvalidNumberLiteral
        ))
    ));
}

#[test]
fn print_of_unknown_variable_is_fatal() {
    let (out, end, _, _) = run("P nosuch.", vec![]);
    assert!(matches!(end, End::Fatal(RuntimeError::PrintVariableNotFound)));
    assert!(out.is_empty());
}

#[test]
fn arithmetic_error_cases() {
    let (_, e1, _, _) = run("Ad vala valb sums.", vec![]);
    assert!(matches!(e1, End::Fatal(RuntimeError::VariableDoesNotExist)));

    let (_, e2, _, _) = run("strv words.Ad strv strv sums.", vec![]);
    assert!(matches!(e2, End::Fatal(RuntimeError::ArithmeticOnString)));

    let (_, e3, _, _) = run("vala One.Ad vala.", vec![]);
    assert!(matches!(e3, End::Fatal(RuntimeError::InvalidAmountArguments)));

    let (_, e4, _, _) = run("vala One.equal vala.", vec![]);
    assert!(matches!(e4, End::Fatal(RuntimeError::BranchWrongArgCount)));
}

#[test]
fn numeric_input_is_stored_and_printed() {
    let (out, end, st, _) = run("i Nmod invr.P invr.", vec!["42"]);
    assert!(matches!(end, End::Halted));
    assert_eq!(out, vec!["42".to_string()]);
    assert_eq!(num_of(&st, "invr"), 42.0);
}

#[test]
fn string_input_is_stored_verbatim() {
    let (out, end, _, _) = run("i smod invr.P invr.", vec!["hello there"]);
    assert!(matches!(end, End::Halted));
    assert_eq!(out, vec!["hello there".to_string()]);
}

#[test]
fn malformed_numeric_input_halts_gracefully() {
    let (out, end, _, _) = run("i Nmod invr.P invr.", vec!["notanumber"]);
    assert!(matches!(end, End::Mismatch));
    assert!(out.is_empty());
}

#[test]
fn input_needs_exactly_two_arguments() {
    let (_, end, _, _) = run("i onlyone.", vec![]);
    assert!(matches!(end, End::Fatal(RuntimeError::InputWrongArgCount)));
}

#[test]
fn backward_branch_makes_a_loop() {
    // Count down from three to zero, printing at each pass.
    let (out, end, _, _) = run(
        "cntr Three.zero Zero.ones One.mylab1.P cntr.ad cntr ones cntr.great cntr zero mylab1.",
        vec![],
    );
    assert!(matches!(end, End::Halted));
    assert_eq!(out, vec!["3".to_string(), "2".to_string(), "1".to_string()]);
}
