//! The opcode table: an operation is selected by the character length of a
//! statement's first word and the letter case of that word's first
//! character, never by its spelling.
use vstd::prelude::*;

verus! {

/// The operations a token can perform.  `Invalid` stands for a statement
/// that failed to tokenize; it is kept so that every statement of a source
/// text can be reported before execution is refused.
#[derive(Debug, PartialEq, Eq, Clone, Copy, Structural)]
pub enum Operation {
    Print,
    Input,
    Add,
    Sub,
    Mul,
    Div,
    Var,
    Branch,
    Label,
    Exit,
    Invalid,
}

/// The full table: word length one selects `Print` or `Input`, two selects
/// `Add` or `Sub`, three selects `Mul` or `Div` (the uppercase first letter
/// picking the first of each pair), while lengths four, five and six select
/// `Var`, `Branch` and `Label` whatever the case.  Every other signature is
/// unmapped.
pub open spec fn opcode_spec(len: nat, upper: bool) -> Option<Operation> {
    if len == 1 {
        Some(if upper { Operation::Print } else { Operation::Input })
    } else if len == 2 {
        Some(if upper { Operation::Add } else { Operation::Sub })
    } else if len == 3 {
        Some(if upper { Operation::Mul } else { Operation::Div })
    } else if len == 4 {
        Some(Operation::Var)
    } else if len == 5 {
        Some(Operation::Branch)
    } else if len == 6 {
        Some(Operation::Label)
    } else {
        None
    }
}

/// Look a signature up in the opcode table.
pub fn opcode_for(len: usize, upper: bool) -> (r: Option<Operation>)
    ensures
        r == opcode_spec(len as nat, upper),
{
    if len == 1 {
        Some(if upper { Operation::Print } else { Operation::Input })
    } else if len == 2 {
        Some(if upper { Operation::Add } else { Operation::Sub })
    } else if len == 3 {
        Some(if upper { Operation::Mul } else { Operation::Div })
    } else if len == 4 {
        Some(Operation::Var)
    } else if len == 5 {
        Some(Operation::Branch)
    } else if len == 6 {
        Some(Operation::Label)
    } else {
        None
    }
}

} // verus!
