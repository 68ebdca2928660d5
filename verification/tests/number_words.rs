use mtlang::number::{parse_text_number, NumberParseError};

fn parsed(words: Vec<&str>) -> f64 {
    let args: Vec<String> = words.iter().map(|x| x.to_string()).collect();
    let literal: String = parse_text_number(args).unwrap();
    literal.parse::<f64>().unwrap()
}

#[test]
fn number_parse_test() {
    // A plain whole number.
    let args: Vec<String> = vec!["nine", "seven", "three"]
        .iter()
        .map(|x| x.to_string())
        .collect();
    let n: f64 = parse_text_number(args).unwrap().parse().unwrap();
    assert_eq!(n, 973.0);

    // A negative number.
    let args: Vec<String> = vec!["minus", "seven", "three"]
        .iter()
        .map(|x| x.to_string())
        .collect();
    let n: f64 = parse_text_number(args).unwrap().parse().unwrap();
    assert_eq!(n, -73.0);

    // A comma number with digits before the comma.
    let args: Vec<String> = vec!["seven", "comma", "three", "nine"]
        .iter()
        .map(|x| x.to_string())
        .collect();
    let n: f64 = parse_text_number(args).unwrap().parse().unwrap();
    assert_eq!(n, 7.39);

    // A comma number with no digits before the comma.
    let args: Vec<String> = vec!["comma", "three", "nine"]
        .iter()
        .map(|x| x.to_string())
        .collect();
    let n: f64 = parse_text_number(args).unwrap().parse().unwrap();
    assert_eq!(n, 0.39);

    // A negative comma number.
    let args: Vec<String> = vec!["minus", "six", "comma", "three", "nine"]
        .iter()
        .map(|x| x.to_string())
        .collect();
    let n: f64 = parse_text_number(args).unwrap().parse().unwrap();
    assert_eq!(n, -6.39);

    // A negative comma number with no digits before the comma.
    let args: Vec<String> = vec!["minus", "comma", "three", "zero"]
        .iter()
        .map(|x| x.to_string())
        .collect();
    let n: f64 = parse_text_number(args).unwrap().parse().unwrap();
    assert_eq!(n, -0.3);

    // No words at all provide no number.
    let args: Vec<String> = vec![];
    match parse_text_number(args) {
        Ok(_) => {
            panic!()
        }
        Err(e) => {
            if e != NumberParseError::NoNumberProvided {
                panic!();
            }
        }
    }

    // A word that names no digit.
    let args: Vec<String> = vec!["one", "two", "invalid", "zero"]
        .iter()
        .map(|x| x.to_string())
        .collect();
    match parse_text_number(args) {
        Ok(_) => {
            panic!()
        }
        Err(e) => {
            if e != NumberParseError::InvalidNumberLiteral {
                panic!();
            }
        }
    }

    // A second comma.
    let args: Vec<String> = vec!["one", "comma", "two", "comma", "four"]
        .iter()
        .map(|x| x.to_string())
        .collect();
    match parse_text_number(args) {
        Ok(_) => {
            panic!()
        }
        Err(e) => {
            if e != NumberParseError::DoubleComma {
                panic!();
            }
        }
    }
}

#[test]
fn digit_words_ignore_case() {
    // The words go through a real lower-casing, so capitals still parse.
    assert_eq!(parsed(vec!["Minus", "NINE", "Comma", "FIVE"]), -9.5);
    assert_eq!(parsed(vec!["MINUS", "seven", "three"]), -73.0);
}

#[test]
fn all_ten_digit_words() {
    assert_eq!(
        parsed(vec![
            "one", "two", "three", "four", "five", "six", "seven", "eight", "nine", "zero",
        ]),
        1234567890.0
    );
}

#[test]
fn lone_minus_is_negative_zero() {
    let lit = parse_text_number(vec!["minus".to_string()]).unwrap();
    let n: f64 = lit.parse().unwrap();
    assert_eq!(n, 0.0);
    assert!(n.is_sign_negative());
}
