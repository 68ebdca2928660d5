//! From source text to a runnable program: the text is split into
//! statements on the fixed `.` separator, every statement is tokenized, and
//! all tokenize errors are collected — execution is only allowed when there
//! were none.  A statement that fails still yields an `Invalid` token so
//! that indexes, and so label positions, stay aligned.  A synthetic `Exit`
//! token closes the program.
use vstd::prelude::*;

use crate::opcode::Operation;
use crate::text::{split_spec, split_str, trim_spec, trim_str};
use crate::token::{
    line_error_msg, tokenize_spec, tokenize_text_code, LineParseError, LineParseErrorTypes, Token,
    TokenModel,
};

verus! {

/// One statement that failed to tokenize: its index, its trimmed text, and
/// the error.
pub struct CompileError {
    pub index: usize,
    pub line: String,
    pub error: LineParseError,
}

/// The mathematical image of a compile error.
pub struct CompileErrorModel {
    pub index: usize,
    pub line: Seq<char>,
    pub typ: LineParseErrorTypes,
}

impl View for CompileError {
    type V = CompileErrorModel;

    open spec fn view(&self) -> CompileErrorModel {
        CompileErrorModel { index: self.index, line: self.line@, typ: self.error.typ }
    }
}

impl DeepView for CompileError {
    type V = CompileErrorModel;

    open spec fn deep_view(&self) -> CompileErrorModel {
        self.view()
    }
}

/// The statements of a source text: the text split on the separator, the
/// last piece dropped when it trims to nothing (it is the stretch after the
/// final separator).
pub open spec fn statements_of(src: Seq<char>) -> Seq<Seq<char>> {
    let parts = split_spec(src, '.');
    if trim_spec(parts.last()).len() == 0 {
        parts.drop_last()
    } else {
        parts
    }
}

/// Whether the source forgot the separator after its last statement.
pub open spec fn missing_final_separator(src: Seq<char>) -> bool {
    trim_spec(split_spec(src, '.').last()).len() != 0
}

/// The token a statement compiles to: its own token, or the `Invalid`
/// placeholder when it does not tokenize.
pub open spec fn compiled_token(stmt: Seq<char>) -> TokenModel {
    match tokenize_spec(stmt) {
        Ok(tm) => tm,
        Err(_) => TokenModel { op: Operation::Invalid, name: "Invalid!"@, args: Seq::empty() },
    }
}

/// The image of the synthetic final token.
pub open spec fn exit_token_model() -> TokenModel {
    TokenModel { op: Operation::Exit, name: Seq::empty(), args: Seq::empty() }
}

/// The whole compiled token sequence of a source text.
pub open spec fn compiled_tokens(src: Seq<char>) -> Seq<TokenModel> {
    statements_of(src).map_values(|stmt: Seq<char>| compiled_token(stmt)).push(exit_token_model())
}

/// The errors of the first `n` statements, in order.
pub open spec fn compile_errors_upto(stmts: Seq<Seq<char>>, n: int) -> Seq<CompileErrorModel>
    decreases n,
{
    if n <= 0 {
        Seq::empty()
    } else {
        let w = compile_errors_upto(stmts, n - 1);
        match tokenize_spec(stmts[n - 1]) {
            Ok(_) => w,
            Err(e) => w.push(
                CompileErrorModel {
                    index: (n - 1) as usize,
                    line: trim_spec(stmts[n - 1]),
                    typ: e,
                },
            ),
        }
    }
}

/// The errors of a whole source text.
pub open spec fn compile_errors_spec(src: Seq<char>) -> Seq<CompileErrorModel> {
    compile_errors_upto(statements_of(src), statements_of(src).len() as int)
}

/// A compiled program: its tokens (always ending in `Exit`), the tokenize
/// errors, and whether the final separator was missing.
pub struct CompiledProgram {
    pub tokens: Vec<Token>,
    pub errors: Vec<CompileError>,
    pub missing_dot: bool,
}

/// Split a source text into statements, tokenize each, and close the
/// program with `Exit`.  Execution is meant to proceed only when `errors`
/// is empty; `missing_dot` only warns.
pub fn compile_source(src: &str) -> (r: CompiledProgram)
    ensures
        r.tokens.deep_view() == compiled_tokens(src@),
        forall|i: int| 0 <= i < r.tokens@.len() ==> (#[trigger] r.tokens@[i]).wf(),
        r.errors.deep_view() == compile_errors_spec(src@),
        r.missing_dot == missing_final_separator(src@),
{
    let mut parts = split_str(src, '.');
    let ghost allparts = split_spec(src@, '.');
    proof {
        assert(parts.deep_view().len() == parts@.len());
        assert(allparts.len() >= 1) by {
            crate::text::lemma_split_at_least_one(src@, '.');
        }
        assert(parts.deep_view().last() == allparts.last());
        assert(parts@.len() >= 1);
    }
    let last = &parts[parts.len() - 1];
    let missing_dot = trim_str(last.as_str()).unicode_len() != 0;
    if !missing_dot {
        let _ = parts.pop();
        proof {
            assert(parts.deep_view() =~= statements_of(src@));
        }
    } else {
        proof {
            assert(parts.deep_view() =~= statements_of(src@));
        }
    }
    let ghost stmts = statements_of(src@);
    let mut tokens: Vec<Token> = Vec::new();
    let mut errors: Vec<CompileError> = Vec::new();
    let mut i: usize = 0;
    while i < parts.len()
        invariant
            i <= parts@.len(),
            parts.deep_view() == stmts,
            parts@.len() == stmts.len(),
            tokens@.len() == i,
            forall|j: int| 0 <= j < i ==> (#[trigger] tokens@[j])@ == compiled_token(stmts[j]),
            forall|j: int| 0 <= j < i ==> (#[trigger] tokens@[j]).wf(),
            errors.deep_view() == compile_errors_upto(stmts, i as int),
        decreases parts@.len() - i,
    {
        proof {
            assert(stmts[i as int] == parts@[i as int]@);
        }
        let ghost prev_errors = errors.deep_view();
        match tokenize_text_code(parts[i].as_str()) {
            Ok(t) => {
                proof {
                    assert(t@ == compiled_token(stmts[i as int]));
                }
                tokens.push(t);
            },
            Err(e) => {
                let line = trim_str(parts[i].as_str()).to_owned();
                errors.push(CompileError { index: i, line, error: e });
                proof {
                    assert(errors.deep_view() =~= prev_errors.push(
                        CompileErrorModel {
                            index: i,
                            line: trim_spec(stmts[i as int]),
                            typ: e.typ,
                        },
                    ));
                }
                let inv_args: Vec<String> = Vec::new();
                proof {
                    assert(inv_args.deep_view() =~= Seq::<Seq<char>>::empty());
                }
                let invalid = Token {
                    op: Operation::Invalid,
                    nargs: 0,
                    args: inv_args,
                    name: String::from_str("Invalid!"),
                };
                proof {
                    assert(invalid@ == compiled_token(stmts[i as int]));
                }
                tokens.push(invalid);
            },
        }
        i = i + 1;
    }
    let exit_args: Vec<String> = Vec::new();
    proof {
        assert(exit_args.deep_view() =~= Seq::<Seq<char>>::empty());
    }
    let exit_token = Token { op: Operation::Exit, nargs: 0, args: exit_args, name: String::new() };
    proof {
        assert(exit_token@ == exit_token_model());
    }
    tokens.push(exit_token);
    proof {
        assert(tokens.deep_view() =~= compiled_tokens(src@));
        assert(errors.deep_view() == compile_errors_spec(src@));
    }
    CompiledProgram { tokens, errors, missing_dot }
}

} // verus!
