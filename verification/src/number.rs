//! The number-word parser: an ordered sequence of words such as
//! `minus seven comma three nine` denotes a number.  An optional leading
//! `minus` sets the sign, `comma` starts the fractional part, and the ten
//! digit names `zero` through `nine` supply digits, all case-insensitively.
//! The parser yields the number as a decimal literal (here `-7.39`), ready
//! for the numeric evaluation that the engine's driver performs.
use vstd::prelude::*;

use crate::text::{lower_of, to_lower};

verus! {

/// The ways a word sequence can fail to denote a number.
#[derive(Debug, PartialEq, Eq, Clone, Copy, Structural)]
pub enum NumberParseError {
    NoNumberProvided,
    InvalidNumberLiteral,
    DoubleComma,
}

/// The digit a (lower-cased) word names, as a one-character sequence.
pub open spec fn word_digit(w: Seq<char>) -> Option<Seq<char>> {
    if w == "zero"@ {
        Some("0"@)
    } else if w == "one"@ {
        Some("1"@)
    } else if w == "two"@ {
        Some("2"@)
    } else if w == "three"@ {
        Some("3"@)
    } else if w == "four"@ {
        Some("4"@)
    } else if w == "five"@ {
        Some("5"@)
    } else if w == "six"@ {
        Some("6"@)
    } else if w == "seven"@ {
        Some("7"@)
    } else if w == "eight"@ {
        Some("8"@)
    } else if w == "nine"@ {
        Some("9"@)
    } else {
        None
    }
}

/// Scan the words from index `i` on, with the digits gathered so far before
/// (`intd`) and after (`fracd`) the comma.  A leading `minus` is skipped; a
/// second `comma` is fatal; any word that is neither `comma` nor a digit
/// name is fatal.
pub open spec fn number_scan(
    words: Seq<Seq<char>>,
    i: int,
    comma: bool,
    intd: Seq<char>,
    fracd: Seq<char>,
) -> Result<(Seq<char>, Seq<char>), NumberParseError>
    decreases words.len() - i,
{
    if i < 0 || i >= words.len() {
        Ok((intd, fracd))
    } else {
        let lw = lower_of(words[i]);
        if i == 0 && lw == "minus"@ {
            number_scan(words, 1, comma, intd, fracd)
        } else if lw == "comma"@ {
            if comma {
                Err(NumberParseError::DoubleComma)
            } else {
                number_scan(words, i + 1, true, intd, fracd)
            }
        } else {
            match word_digit(lw) {
                None => Err(NumberParseError::InvalidNumberLiteral),
                Some(d) => if comma {
                    number_scan(words, i + 1, comma, intd, fracd + d)
                } else {
                    number_scan(words, i + 1, comma, intd + d, fracd)
                },
            }
        }
    }
}

/// The decimal literal for a sign and two digit strings: `-` when negative,
/// then the integral digits (`0` when there are none), then a point and the
/// fractional digits when any follow the comma.
pub open spec fn decimal_of(neg: bool, intd: Seq<char>, fracd: Seq<char>) -> Seq<char> {
    let sign: Seq<char> = if neg {
        "-"@
    } else {
        Seq::empty()
    };
    let ipart: Seq<char> = if intd.len() == 0 {
        "0"@
    } else {
        intd
    };
    let fpart: Seq<char> = if fracd.len() == 0 {
        Seq::empty()
    } else {
        "."@ + fracd
    };
    sign + ipart + fpart
}

/// What parsing a word sequence yields: an empty sequence provides no
/// number; otherwise the scan either fails or gives the digits, and the
/// sign is set by a first word equal to `minus`.
pub open spec fn number_literal_spec(words: Seq<Seq<char>>) -> Result<Seq<char>, NumberParseError> {
    if words.len() == 0 {
        Err(NumberParseError::NoNumberProvided)
    } else {
        match number_scan(words, 0, false, Seq::empty(), Seq::empty()) {
            Err(e) => Err(e),
            Ok((intd, fracd)) => Ok(decimal_of(lower_of(words[0]) == "minus"@, intd, fracd)),
        }
    }
}

/// Find the digit a lower-cased word names.
fn digit_for(lw: &String) -> (r: Option<&'static str>)
    ensures
        match r {
            Some(d) => word_digit(lw@) == Some(d@),
            None => word_digit(lw@) is None,
        },
{
    let names: [&'static str; 10] = [
        "zero",
        "one",
        "two",
        "three",
        "four",
        "five",
        "six",
        "seven",
        "eight",
        "nine",
    ];
    let digits: [&'static str; 10] = ["0", "1", "2", "3", "4", "5", "6", "7", "8", "9"];
    let mut k: usize = 0;
    while k < 10
        invariant
            k <= 10,
            forall|j: int| 0 <= j < k ==> lw@ != names@[j]@,
            names@[0]@ == "zero"@ && digits@[0]@ == "0"@,
            names@[1]@ == "one"@ && digits@[1]@ == "1"@,
            names@[2]@ == "two"@ && digits@[2]@ == "2"@,
            names@[3]@ == "three"@ && digits@[3]@ == "3"@,
            names@[4]@ == "four"@ && digits@[4]@ == "4"@,
            names@[5]@ == "five"@ && digits@[5]@ == "5"@,
            names@[6]@ == "six"@ && digits@[6]@ == "6"@,
            names@[7]@ == "seven"@ && digits@[7]@ == "7"@,
            names@[8]@ == "eight"@ && digits@[8]@ == "8"@,
            names@[9]@ == "nine"@ && digits@[9]@ == "9"@,
        decreases 10 - k,
    {
        let name: &str = names[k];
        if lw.eq(&name.to_owned()) {
            return Some(digits[k]);
        }
        k = k + 1;
    }
    None
}

/// Parse a word sequence into the decimal literal it denotes.
pub fn parse_text_number(text: Vec<String>) -> (r: Result<String, NumberParseError>)
    ensures
        match r {
            Ok(s) => number_literal_spec(text.deep_view()) == Ok::<Seq<char>, NumberParseError>(
                s@,
            ),
            Err(e) => number_literal_spec(text.deep_view()) == Err::<Seq<char>, NumberParseError>(
                e,
            ),
        },
{
    let ghost words = text.deep_view();
    if text.len() == 0 {
        return Err(NumberParseError::NoNumberProvided);
    }
    let minus = String::from_str("minus");
    let comma_word = String::from_str("comma");
    let is_negative = to_lower(&text[0]).eq(&minus);
    let mut comma: bool = false;
    let mut int_str = String::new();
    let mut frac_str = String::new();
    let mut i: usize = 0;
    while i < text.len()
        invariant
            i <= text.len(),
            words == text.deep_view(),
            words.len() == text@.len(),
            minus@ == "minus"@,
            comma_word@ == "comma"@,
            number_scan(words, i as int, comma, int_str@, frac_str@) == number_scan(
                words,
                0,
                false,
                Seq::<char>::empty(),
                Seq::<char>::empty(),
            ),
        decreases text@.len() - i,
    {
        proof {
            assert(words[i as int] == text@[i as int]@);
        }
        let lw = to_lower(&text[i]);
        if i == 0 && lw.eq(&minus) {
            i = i + 1;
        } else if lw.eq(&comma_word) {
            if comma {
                return Err(NumberParseError::DoubleComma);
            }
            comma = true;
            i = i + 1;
        } else {
            match digit_for(&lw) {
                None => {
                    return Err(NumberParseError::InvalidNumberLiteral);
                },
                Some(d) => {
                    if comma {
                        frac_str.append(d);
                    } else {
                        int_str.append(d);
                    }
                    i = i + 1;
                },
            }
        }
    }
    let ghost intd = int_str@;
    let ghost fracd = frac_str@;
    assert(number_scan(words, 0, false, Seq::<char>::empty(), Seq::<char>::empty()) == Ok::<
        (Seq<char>, Seq<char>),
        NumberParseError,
    >((intd, fracd)));
    let mut out = String::new();
    if is_negative {
        out.append("-");
    }
    if int_str.as_str().unicode_len() == 0 {
        out.append("0");
    } else {
        out.append(int_str.as_str());
    }
    if frac_str.as_str().unicode_len() > 0 {
        out.append(".");
        out.append(frac_str.as_str());
    }
    proof {
        assert(out@ =~= decimal_of(is_negative, intd, fracd));
    }
    Ok(out)
}

} // verus!
