//! The tokenizer: one statement's raw text becomes a token or a parse
//! error.  The statement is trimmed, split on single spaces (consecutive
//! spaces yield empty words, which are kept), and the first word's length
//! and case signature is looked up in the opcode table.
use vstd::prelude::*;

use crate::opcode::{opcode_for, opcode_spec, Operation};
use crate::text::{is_upper, split_from, split_spec, split_str, trim_spec, trim_str, upper_of};

verus! {

/// One executable statement: its operation, its first word kept with its
/// original case, and the remaining words as arguments.
#[derive(Debug)]
pub struct Token {
    pub op: Operation,
    pub nargs: usize,
    pub name: String,
    pub args: Vec<String>,
}

/// The mathematical image of a token.
pub struct TokenModel {
    pub op: Operation,
    pub name: Seq<char>,
    pub args: Seq<Seq<char>>,
}

impl View for Token {
    type V = TokenModel;

    open spec fn view(&self) -> TokenModel {
        TokenModel { op: self.op, name: self.name@, args: self.args.deep_view() }
    }
}

impl DeepView for Token {
    type V = TokenModel;

    open spec fn deep_view(&self) -> TokenModel {
        self.view()
    }
}

impl Token {
    /// The argument count field agrees with the argument list.
    pub open spec fn wf(&self) -> bool {
        self.nargs == self.args@.len()
    }
}

/// The ways one statement can fail to tokenize.
#[derive(Debug, PartialEq, Eq, Clone, Copy, Structural)]
pub enum LineParseErrorTypes {
    UnknownOperation,
    NoOpcodeProvided,
    CouldntParseOpcode,
}

/// A tokenize error together with its display text.
#[derive(Debug, PartialEq, Eq)]
pub struct LineParseError {
    pub typ: LineParseErrorTypes,
    pub msg: &'static str,
}

/// The display text that accompanies each tokenize error.
pub open spec fn line_error_msg(typ: LineParseErrorTypes) -> Seq<char> {
    match typ {
        LineParseErrorTypes::NoOpcodeProvided => "No OpCode provided."@,
        LineParseErrorTypes::CouldntParseOpcode => "OpCode couldn't be parsed (check spaces)"@,
        LineParseErrorTypes::UnknownOperation => "Provided Operation is invalid."@,
    }
}

/// The words of a statement: the trimmed text split on single spaces; a
/// statement that trims to nothing has no words at all.
pub open spec fn words_of(s: Seq<char>) -> Seq<Seq<char>> {
    if trim_spec(s).len() == 0 {
        Seq::empty()
    } else {
        split_spec(trim_spec(s), ' ')
    }
}

/// What tokenizing a statement yields: no words at all is
/// `NoOpcodeProvided`; a first word without characters is
/// `CouldntParseOpcode`; a signature absent from the opcode table is
/// `UnknownOperation`; otherwise the token, whose name is the first word
/// with its case preserved and whose arguments are the remaining words.
pub open spec fn tokenize_spec(s: Seq<char>) -> Result<TokenModel, LineParseErrorTypes> {
    let ws = words_of(s);
    if ws.len() == 0 {
        Err(LineParseErrorTypes::NoOpcodeProvided)
    } else if ws[0].len() == 0 {
        Err(LineParseErrorTypes::CouldntParseOpcode)
    } else {
        match opcode_spec(ws[0].len(), upper_of(ws[0][0])) {
            Some(op) => Ok(TokenModel { op, name: ws[0], args: ws.drop_first() }),
            None => Err(LineParseErrorTypes::UnknownOperation),
        }
    }
}

proof fn lemma_split_nonempty(s: Seq<char>, sep: char, start: int)
    requires
        0 <= start <= s.len(),
    ensures
        split_from(s, sep, start).len() >= 1,
    decreases s.len() - start,
{
}

/// Tokenize one statement.
pub fn tokenize_text_code(code: &str) -> (r: Result<Token, LineParseError>)
    ensures
        match r {
            Ok(t) => tokenize_spec(code@) == Ok::<TokenModel, LineParseErrorTypes>(t@) && t.wf(),
            Err(e) => tokenize_spec(code@) == Err::<TokenModel, LineParseErrorTypes>(e.typ)
                && e.msg@ == line_error_msg(e.typ),
        },
{
    let trimmed = trim_str(code);
    if trimmed.unicode_len() == 0 {
        return Err(LineParseError {
            typ: LineParseErrorTypes::NoOpcodeProvided,
            msg: "No OpCode provided.",
        });
    }
    let mut words = split_str(trimmed, ' ');
    proof {
        lemma_split_nonempty(trimmed@, ' ', 0);
        assert(words.deep_view() == words_of(code@));
        assert(words@.len() == words.deep_view().len());
    }
    let first_len = words[0].as_str().unicode_len();
    proof {
        assert(words@[0]@ == words.deep_view()[0]);
    }
    if first_len == 0 {
        return Err(LineParseError {
            typ: LineParseErrorTypes::CouldntParseOpcode,
            msg: "OpCode couldn't be parsed (check spaces)",
        });
    }
    let first_char = words[0].as_str().get_char(0);
    let operation = match opcode_for(first_len, is_upper(first_char)) {
        Some(op) => op,
        None => {
            return Err(LineParseError {
                typ: LineParseErrorTypes::UnknownOperation,
                msg: "Provided Operation is invalid.",
            });
        },
    };
    let first_word = words[0].clone();
    let ghost all = words.deep_view();
    words.remove(0);
    proof {
        assert(words.deep_view() =~= all.drop_first());
    }
    let nargs = words.len();
    Ok(Token { op: operation, nargs, args: words, name: first_word })
}

} // verus!
