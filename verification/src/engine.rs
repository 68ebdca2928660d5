//! The execution engine.  It is a state machine over the instruction
//! pointer, the variable store and a pending slot: each `step` either
//! finishes one instruction, or stops at a point where something outside
//! the engine's own logic is needed — a double-precision operation or
//! comparison, a number rendered or parsed, a line of input — and hands the
//! caller a query.  The caller performs it and steps again with the reply.
//! Every numeric value is carried as the 64 bits of its double-precision
//! encoding and never interpreted here.
use vstd::prelude::*;

use crate::number::{number_literal_spec, parse_text_number, NumberParseError};
use crate::opcode::Operation;
use crate::store::{lemma_store_model_insert, store_model, NamedTable, Value, ValueModel};
use crate::text::{is_upper, join_spec, join_words, upper_of};
use crate::token::Token;

verus! {

broadcast use vstd::map::group_map_axioms;

/// The fatal runtime conditions; each aborts the whole run.
#[derive(Debug, PartialEq, Eq, Clone, Copy, Structural)]
pub enum RuntimeError {
    InvalidAmountArguments,
    VariableDoesNotExist,
    ArithmeticOnString,
    StoringToString,
    ZeroDivisionError,
    PrintVariableNotFound,
    InputWrongArgCount,
    BranchWrongArgCount,
    EmptyBranchName,
    LabelNotFound,
    InvalidBranchSelector,
    VarsNotOfSameType,
    InvalidComparisonForTypes,
    VarMissingArgs,
    NumberParse(NumberParseError),
    TypeChangeStringToNumber,
    TypeChangeNumberToString,
}

/// Conditions that mean the engine was driven wrongly — a token sequence
/// without its closing `Exit`, an `Invalid` token that was never gated, a
/// word without characters where a mode letter is read, or a reply that
/// answers no pending query.  A driver treats them as program defects.
#[derive(Debug, PartialEq, Eq, Clone, Copy, Structural)]
pub enum Defect {
    NoToken,
    InvalidOperation,
    InputWithoutChars,
    VarWithoutChars,
    UnexpectedReply,
}

impl RuntimeError {
    /// The diagnostic text of each fatal condition.
    pub open spec fn message_spec(&self) -> Seq<char> {
        match self {
            RuntimeError::InvalidAmountArguments => "InvalidAmountArguments"@,
            RuntimeError::VariableDoesNotExist => "VariableDoesNotExist"@,
            RuntimeError::ArithmeticOnString => "ArithmeticOnString"@,
            RuntimeError::StoringToString => "StoringToString"@,
            RuntimeError::ZeroDivisionError => "ZeroDivisionError"@,
            RuntimeError::PrintVariableNotFound => "Couldn't find var, you are trying to use."@,
            RuntimeError::InputWrongArgCount => "Input needs exactly two args."@,
            RuntimeError::BranchWrongArgCount => "Branch Opcode does not have exactly *3* arguments."@,
            RuntimeError::EmptyBranchName => "No characters in branch name."@,
            RuntimeError::LabelNotFound => "Couldn't find label you are trying to jump to."@,
            RuntimeError::InvalidBranchSelector => "Branch command doesn't start with <e/l/g> (or uppercase version) and is invalid."@,
            RuntimeError::VarsNotOfSameType => "VarsNotOfSameType"@,
            RuntimeError::InvalidComparisonForTypes => "InvalidComparisonForTypes"@,
            RuntimeError::VarMissingArgs => "Var token is missing argument(s)."@,
            RuntimeError::NumberParse(e) => match e {
                NumberParseError::NoNumberProvided => "NoNumberProvided"@,
                NumberParseError::InvalidNumberLiteral => "InvalidNumberLiteral"@,
                NumberParseError::DoubleComma => "DoubleComma"@,
            },
            RuntimeError::TypeChangeStringToNumber => "Changing type of variable from String to number"@,
            RuntimeError::TypeChangeNumberToString => "Changing type of variable from Number to String"@,
        }
    }

    /// The diagnostic text, for the driver to print.
    pub fn message(&self) -> (r: String)
        ensures
            r@ == self.message_spec(),
    {
        match self {
            RuntimeError::InvalidAmountArguments => String::from_str("InvalidAmountArguments"),
            RuntimeError::VariableDoesNotExist => String::from_str("VariableDoesNotExist"),
            RuntimeError::ArithmeticOnString => String::from_str("ArithmeticOnString"),
            RuntimeError::StoringToString => String::from_str("StoringToString"),
            RuntimeError::ZeroDivisionError => String::from_str("ZeroDivisionError"),
            RuntimeError::PrintVariableNotFound => String::from_str(
                "Couldn't find var, you are trying to use.",
            ),
            RuntimeError::InputWrongArgCount => String::from_str("Input needs exactly two args."),
            RuntimeError::BranchWrongArgCount => String::from_str(
                "Branch Opcode does not have exactly *3* arguments.",
            ),
            RuntimeError::EmptyBranchName => String::from_str("No characters in branch name."),
            RuntimeError::LabelNotFound => String::from_str(
                "Couldn't find label you are trying to jump to.",
            ),
            RuntimeError::InvalidBranchSelector => String::from_str(
                "Branch command doesn't start with <e/l/g> (or uppercase version) and is invalid.",
            ),
            RuntimeError::VarsNotOfSameType => String::from_str("VarsNotOfSameType"),
            RuntimeError::InvalidComparisonForTypes => String::from_str(
                "InvalidComparisonForTypes",
            ),
            RuntimeError::VarMissingArgs => String::from_str("Var token is missing argument(s)."),
            RuntimeError::NumberParse(e) => match e {
                NumberParseError::NoNumberProvided => String::from_str("NoNumberProvided"),
                NumberParseError::InvalidNumberLiteral => String::from_str("InvalidNumberLiteral"),
                NumberParseError::DoubleComma => String::from_str("DoubleComma"),
            },
            RuntimeError::TypeChangeStringToNumber => String::from_str(
                "Changing type of variable from String to number",
            ),
            RuntimeError::TypeChangeNumberToString => String::from_str(
                "Changing type of variable from Number to String",
            ),
        }
    }
}

impl Defect {
    /// The text of each defect, as a driver's panic message.
    pub open spec fn message_spec(&self) -> Seq<char> {
        match self {
            Defect::NoToken => "Couldn't get token!"@,
            Defect::InvalidOperation => "Trying to execute 'Invalid' operation."@,
            Defect::InputWithoutChars => "str withouth any chars!"@,
            Defect::VarWithoutChars => "string without any chars"@,
            Defect::UnexpectedReply => "a reply arrived that answers no pending query"@,
        }
    }

    /// The defect's text, for the driver to panic with.
    pub fn message(&self) -> (r: String)
        ensures
            r@ == self.message_spec(),
    {
        match self {
            Defect::NoToken => String::from_str("Couldn't get token!"),
            Defect::InvalidOperation => String::from_str("Trying to execute 'Invalid' operation."),
            Defect::InputWithoutChars => String::from_str("str withouth any chars!"),
            Defect::VarWithoutChars => String::from_str("string without any chars"),
            Defect::UnexpectedReply => String::from_str(
                "a reply arrived that answers no pending query",
            ),
        }
    }
}

/// The four double-precision operations a driver performs for the engine.
#[derive(Debug, PartialEq, Eq, Clone, Copy, Structural)]
pub enum ArithOp {
    Add,
    Sub,
    Mul,
    Div,
}

/// The three comparisons a branch can select.
#[derive(Debug, PartialEq, Eq, Clone, Copy, Structural)]
pub enum Comparator {
    Equal,
    Less,
    Greater,
}

/// What the engine asks its driver to do.  Bit patterns stand for
/// double-precision numbers throughout.
#[derive(Debug)]
pub enum Query {
    /// Apply the operation to the two numbers and reply `Bits`.
    Arith { op: ArithOp, a: u64, b: u64 },
    /// Compare the two numbers and reply `Truth`.
    Compare { cmp: Comparator, a: u64, b: u64 },
    /// Reply `Truth`: is the number exactly zero?
    IsZero { a: u64 },
    /// Render the number in its standard decimal form and reply `Text`.
    Render { a: u64 },
    /// Parse this decimal literal and reply `Bits`.
    ParseDecimal { text: String },
    /// Parse this line as a number if possible and reply `MaybeBits`.
    ParseInput { text: String },
    /// Read one line from the input, newline stripped, and reply `Text`.
    ReadLine,
}

/// The mathematical image of a query.
pub enum QueryModel {
    Arith { op: ArithOp, a: u64, b: u64 },
    Compare { cmp: Comparator, a: u64, b: u64 },
    IsZero { a: u64 },
    Render { a: u64 },
    ParseDecimal { text: Seq<char> },
    ParseInput { text: Seq<char> },
    ReadLine,
}

impl View for Query {
    type V = QueryModel;

    open spec fn view(&self) -> QueryModel {
        match self {
            Query::Arith { op, a, b } => QueryModel::Arith { op: *op, a: *a, b: *b },
            Query::Compare { cmp, a, b } => QueryModel::Compare { cmp: *cmp, a: *a, b: *b },
            Query::IsZero { a } => QueryModel::IsZero { a: *a },
            Query::Render { a } => QueryModel::Render { a: *a },
            Query::ParseDecimal { text } => QueryModel::ParseDecimal { text: text@ },
            Query::ParseInput { text } => QueryModel::ParseInput { text: text@ },
            Query::ReadLine => QueryModel::ReadLine,
        }
    }
}

/// A driver's answer to a query.
#[derive(Debug)]
pub enum Reply {
    Bits(u64),
    Truth(bool),
    Text(String),
    MaybeBits(Option<u64>),
}

/// The mathematical image of a reply.
pub enum ReplyModel {
    Bits(u64),
    Truth(bool),
    Text(Seq<char>),
    MaybeBits(Option<u64>),
}

impl View for Reply {
    type V = ReplyModel;

    open spec fn view(&self) -> ReplyModel {
        match self {
            Reply::Bits(b) => ReplyModel::Bits(*b),
            Reply::Truth(t) => ReplyModel::Truth(*t),
            Reply::Text(s) => ReplyModel::Text(s@),
            Reply::MaybeBits(o) => ReplyModel::MaybeBits(*o),
        }
    }
}

pub open spec fn reply_opt_model(r: Option<Reply>) -> Option<ReplyModel> {
    match r {
        None => None,
        Some(x) => Some(x@),
    }
}

/// What the engine is waiting for, if anything.
pub enum Pending {
    Idle,
    /// A zero test on a divisor.
    DivCheck,
    /// An arithmetic result, to be stored in the third argument.
    Arith,
    /// A rendered number; the arguments before `upto` are already in `acc`.
    PrintArgs { upto: usize, acc: String },
    /// A comparison; when it holds, the pointer moves to `target`.
    BranchTest { target: usize },
    /// A parsed decimal literal, to be stored under the token's name.
    VarParse,
    /// A line of input.
    ReadInput,
    /// The numeric reading of a line of input.
    InputParse,
}

/// The mathematical image of the pending slot.
pub enum PendingModel {
    Idle,
    DivCheck,
    Arith,
    PrintArgs { upto: usize, acc: Seq<char> },
    BranchTest { target: usize },
    VarParse,
    ReadInput,
    InputParse,
}

impl View for Pending {
    type V = PendingModel;

    open spec fn view(&self) -> PendingModel {
        match self {
            Pending::Idle => PendingModel::Idle,
            Pending::DivCheck => PendingModel::DivCheck,
            Pending::Arith => PendingModel::Arith,
            Pending::PrintArgs { upto, acc } => PendingModel::PrintArgs {
                upto: *upto,
                acc: acc@,
            },
            Pending::BranchTest { target } => PendingModel::BranchTest { target: *target },
            Pending::VarParse => PendingModel::VarParse,
            Pending::ReadInput => PendingModel::ReadInput,
            Pending::InputParse => PendingModel::InputParse,
        }
    }
}

/// The engine's whole state.
pub struct ExecState {
    pub ip: usize,
    pub vars: NamedTable<Value>,
    pub pending: Pending,
}

/// The mathematical image of the engine's state.
pub struct StateModel {
    pub ip: usize,
    pub vars: Map<Seq<char>, ValueModel>,
    pub pending: PendingModel,
}

impl View for ExecState {
    type V = StateModel;

    open spec fn view(&self) -> StateModel {
        StateModel { ip: self.ip, vars: store_model(self.vars@), pending: self.pending@ }
    }
}

impl ExecState {
    /// The variable store binds no name twice.
    pub open spec fn wf(&self) -> bool {
        self.vars.wf()
    }
}

/// What one step reports.
#[derive(Debug)]
pub enum StepResult {
    /// An instruction finished silently.
    Continue,
    /// A `Print` finished; the driver prints this line.
    Output(String),
    /// The driver must perform this query and step again with the reply.
    Ask(Query),
    /// Numeric input did not parse: the driver prints the type notice and
    /// the run ends gracefully.
    InputMismatch,
    /// An `Exit` was reached.
    Halted,
    /// A fatal condition; the run aborts.
    Fatal(RuntimeError),
    /// The engine was driven wrongly; the driver panics.
    Defect(Defect),
}

/// The mathematical image of a step report.
pub enum StepResultModel {
    Continue,
    Output(Seq<char>),
    Ask(QueryModel),
    InputMismatch,
    Halted,
    Fatal(RuntimeError),
    Defect(Defect),
}

impl View for StepResult {
    type V = StepResultModel;

    open spec fn view(&self) -> StepResultModel {
        match self {
            StepResult::Continue => StepResultModel::Continue,
            StepResult::Output(s) => StepResultModel::Output(s@),
            StepResult::Ask(q) => StepResultModel::Ask(q@),
            StepResult::InputMismatch => StepResultModel::InputMismatch,
            StepResult::Halted => StepResultModel::Halted,
            StepResult::Fatal(e) => StepResultModel::Fatal(*e),
            StepResult::Defect(d) => StepResultModel::Defect(*d),
        }
    }
}

/// Whether a character is an ASCII capital letter, as
/// `char::is_ascii_uppercase` decides it.
pub open spec fn ascii_upper(c: char) -> bool {
    (c as u32) >= 65 && (c as u32) <= 90
}

fn is_ascii_upper(c: char) -> (r: bool)
    ensures
        r == ascii_upper(c),
{
    let u = c as u32;
    u >= 65 && u <= 90
}

/// The comparator a branch name's first letter selects: `e` or `E` is
/// equality, `l` or `L` less-than, `g` or `G` greater-than.
pub open spec fn selector_of(c: char) -> Option<Comparator> {
    if c == 'e' || c == 'E' {
        Some(Comparator::Equal)
    } else if c == 'l' || c == 'L' {
        Some(Comparator::Less)
    } else if c == 'g' || c == 'G' {
        Some(Comparator::Greater)
    } else {
        None
    }
}

fn selector_for(c: char) -> (r: Option<Comparator>)
    ensures
        r == selector_of(c),
{
    if c == 'e' || c == 'E' {
        Some(Comparator::Equal)
    } else if c == 'l' || c == 'L' {
        Some(Comparator::Less)
    } else if c == 'g' || c == 'G' {
        Some(Comparator::Greater)
    } else {
        None
    }
}

/// How gathering a `Print` line can stop: a named variable is missing, a
/// number still has to be rendered, or the line is complete.
pub enum PrintStep {
    Missing,
    Need { bits: u64, next: usize, acc: Seq<char> },
    Done(Seq<char>),
}

/// Walk the arguments from `i`, appending each string variable's text to
/// `acc`, until a number needs rendering or a name is unbound.
pub open spec fn print_scan(
    args: Seq<Seq<char>>,
    vars: Map<Seq<char>, ValueModel>,
    i: int,
    acc: Seq<char>,
) -> PrintStep
    decreases args.len() - i,
{
    if i < 0 || i >= args.len() {
        PrintStep::Done(acc)
    } else if !vars.contains_key(args[i]) {
        PrintStep::Missing
    } else {
        match vars[args[i]] {
            ValueModel::VStr(c) => print_scan(args, vars, i + 1, acc + c),
            ValueModel::VNum(b) => PrintStep::Need { bits: b, next: (i + 1) as usize, acc },
        }
    }
}

/// How an arithmetic opcode starts: a fatal condition, or the two operand
/// numbers ready for the driver.
pub enum ArithStart {
    Stop(RuntimeError),
    Go { a: u64, b: u64 },
}

/// Validate an arithmetic token: exactly three arguments, and both operands
/// bound to numbers.
pub open spec fn arith_start_spec(
    nargs: usize,
    args: Seq<Seq<char>>,
    vars: Map<Seq<char>, ValueModel>,
) -> ArithStart {
    if nargs != 3 {
        ArithStart::Stop(RuntimeError::InvalidAmountArguments)
    } else if !vars.contains_key(args[0]) {
        ArithStart::Stop(RuntimeError::VariableDoesNotExist)
    } else if vars[args[0]] is VStr {
        ArithStart::Stop(RuntimeError::ArithmeticOnString)
    } else if !vars.contains_key(args[1]) {
        ArithStart::Stop(RuntimeError::VariableDoesNotExist)
    } else if vars[args[1]] is VStr {
        ArithStart::Stop(RuntimeError::ArithmeticOnString)
    } else {
        ArithStart::Go { a: vars[args[0]]->VNum_0, b: vars[args[1]]->VNum_0 }
    }
}

/// How a branch starts: a fatal condition, a numeric comparison for the
/// driver, or a decision already made on strings.
pub enum BranchStart {
    Stop(RuntimeError),
    Test { cmp: Comparator, a: u64, b: u64, target: usize },
    Decided { taken: bool, target: usize },
}

/// Validate a branch token: three arguments, a named comparator letter, a
/// known target label, and two operands of one type.  String operands admit
/// only the equality comparison, decided here; numbers go to the driver.
pub open spec fn branch_start_spec(
    name: Seq<char>,
    nargs: usize,
    args: Seq<Seq<char>>,
    vars: Map<Seq<char>, ValueModel>,
    labels: Map<Seq<char>, usize>,
) -> BranchStart {
    if nargs != 3 {
        BranchStart::Stop(RuntimeError::BranchWrongArgCount)
    } else if name.len() == 0 {
        BranchStart::Stop(RuntimeError::EmptyBranchName)
    } else if !labels.contains_key(args[2]) {
        BranchStart::Stop(RuntimeError::LabelNotFound)
    } else {
        match selector_of(name[0]) {
            None => BranchStart::Stop(RuntimeError::InvalidBranchSelector),
            Some(cmp) => {
                if !vars.contains_key(args[0]) || !vars.contains_key(args[1]) {
                    BranchStart::Stop(RuntimeError::VariableDoesNotExist)
                } else {
                    match (vars[args[0]], vars[args[1]]) {
                        (ValueModel::VNum(a), ValueModel::VNum(b)) => BranchStart::Test {
                            cmp,
                            a,
                            b,
                            target: labels[args[2]],
                        },
                        (ValueModel::VStr(x), ValueModel::VStr(y)) => {
                            if cmp is Equal {
                                BranchStart::Decided { taken: x == y, target: labels[args[2]] }
                            } else {
                                BranchStart::Stop(RuntimeError::InvalidComparisonForTypes)
                            }
                        },
                        _ => BranchStart::Stop(RuntimeError::VarsNotOfSameType),
                    }
                }
            },
        }
    }
}

/// A state with the pending slot emptied.
pub open spec fn idle(s: StateModel) -> StateModel {
    StateModel { ip: s.ip, vars: s.vars, pending: PendingModel::Idle }
}

/// A state moved to the next instruction, pending slot empty.
pub open spec fn advanced(s: StateModel) -> StateModel {
    StateModel { ip: (s.ip + 1) as usize, vars: s.vars, pending: PendingModel::Idle }
}

/// A state whose store binds `name` to `v`, moved to the next instruction.
pub open spec fn stored(s: StateModel, name: Seq<char>, v: ValueModel) -> StateModel {
    StateModel { ip: (s.ip + 1) as usize, vars: s.vars.insert(name, v), pending: PendingModel::Idle }
}

/// A state waiting on a query.
pub open spec fn waiting(s: StateModel, p: PendingModel) -> StateModel {
    StateModel { ip: s.ip, vars: s.vars, pending: p }
}

/// What one step does when the engine is idle and fetches the token at the
/// instruction pointer.
pub open spec fn dispatch_spec(
    s: StateModel,
    prog: Seq<Token>,
    labels: Map<Seq<char>, usize>,
) -> (StateModel, StepResultModel) {
    if s.ip >= prog.len() {
        (s, StepResultModel::Defect(Defect::NoToken))
    } else {
        let t = prog[s.ip as int];
        let args = t.args.deep_view();
        match t.op {
            Operation::Print => {
                match print_scan(args, s.vars, 0, Seq::empty()) {
                    PrintStep::Missing => (
                        s,
                        StepResultModel::Fatal(RuntimeError::PrintVariableNotFound),
                    ),
                    PrintStep::Need { bits, next, acc } => (
                        waiting(s, PendingModel::PrintArgs { upto: next, acc }),
                        StepResultModel::Ask(QueryModel::Render { a: bits }),
                    ),
                    PrintStep::Done(line) => (advanced(s), StepResultModel::Output(line)),
                }
            },
            Operation::Input => {
                if t.nargs != 2 {
                    (s, StepResultModel::Fatal(RuntimeError::InputWrongArgCount))
                } else if args[0].len() == 0 {
                    (s, StepResultModel::Defect(Defect::InputWithoutChars))
                } else {
                    (
                        waiting(s, PendingModel::ReadInput),
                        StepResultModel::Ask(QueryModel::ReadLine),
                    )
                }
            },
            Operation::Add | Operation::Sub | Operation::Mul => {
                let op = if t.op is Add {
                    ArithOp::Add
                } else if t.op is Sub {
                    ArithOp::Sub
                } else {
                    ArithOp::Mul
                };
                match arith_start_spec(t.nargs, args, s.vars) {
                    ArithStart::Stop(e) => (s, StepResultModel::Fatal(e)),
                    ArithStart::Go { a, b } => (
                        waiting(s, PendingModel::Arith),
                        StepResultModel::Ask(QueryModel::Arith { op, a, b }),
                    ),
                }
            },
            Operation::Div => {
                if t.nargs < 2 {
                    (s, StepResultModel::Fatal(RuntimeError::InvalidAmountArguments))
                } else if !s.vars.contains_key(args[1]) {
                    (s, StepResultModel::Fatal(RuntimeError::VariableDoesNotExist))
                } else {
                    match s.vars[args[1]] {
                        ValueModel::VStr(_) => (
                            s,
                            StepResultModel::Fatal(RuntimeError::ArithmeticOnString),
                        ),
                        ValueModel::VNum(b) => (
                            waiting(s, PendingModel::DivCheck),
                            StepResultModel::Ask(QueryModel::IsZero { a: b }),
                        ),
                    }
                }
            },
            Operation::Var => {
                if t.nargs == 0 {
                    (s, StepResultModel::Fatal(RuntimeError::VarMissingArgs))
                } else if args[0].len() == 0 {
                    (s, StepResultModel::Defect(Defect::VarWithoutChars))
                } else if upper_of(args[0][0]) {
                    match number_literal_spec(args) {
                        Err(e) => (s, StepResultModel::Fatal(RuntimeError::NumberParse(e))),
                        Ok(lit) => (
                            waiting(s, PendingModel::VarParse),
                            StepResultModel::Ask(QueryModel::ParseDecimal { text: lit }),
                        ),
                    }
                } else {
                    if s.vars.contains_key(t.name@) && s.vars[t.name@] is VNum {
                        (s, StepResultModel::Fatal(RuntimeError::TypeChangeNumberToString))
                    } else {
                        (
                            stored(s, t.name@, ValueModel::VStr(join_spec(args))),
                            StepResultModel::Continue,
                        )
                    }
                }
            },
            Operation::Branch => {
                match branch_start_spec(t.name@, t.nargs, args, s.vars, labels) {
                    BranchStart::Stop(e) => (s, StepResultModel::Fatal(e)),
                    BranchStart::Test { cmp, a, b, target } => (
                        waiting(s, PendingModel::BranchTest { target }),
                        StepResultModel::Ask(QueryModel::Compare { cmp, a, b }),
                    ),
                    BranchStart::Decided { taken, target } => {
                        if taken {
                            (
                                StateModel { ip: target, vars: s.vars, pending: PendingModel::Idle },
                                StepResultModel::Continue,
                            )
                        } else {
                            (advanced(s), StepResultModel::Continue)
                        }
                    },
                }
            },
            Operation::Label => (advanced(s), StepResultModel::Continue),
            Operation::Exit => (s, StepResultModel::Halted),
            Operation::Invalid => (s, StepResultModel::Defect(Defect::InvalidOperation)),
        }
    }
}

/// What one step does when a reply answers the pending query.
pub open spec fn resume_spec(
    s: StateModel,
    prog: Seq<Token>,
    labels: Map<Seq<char>, usize>,
    rm: ReplyModel,
) -> (StateModel, StepResultModel) {
    match s.pending {
        PendingModel::Idle => (idle(s), StepResultModel::Defect(Defect::UnexpectedReply)),
        PendingModel::DivCheck => match rm {
            ReplyModel::Truth(z) => {
                if z {
                    (idle(s), StepResultModel::Fatal(RuntimeError::ZeroDivisionError))
                } else if s.ip >= prog.len() {
                    (idle(s), StepResultModel::Defect(Defect::NoToken))
                } else {
                    let t = prog[s.ip as int];
                    match arith_start_spec(t.nargs, t.args.deep_view(), s.vars) {
                        ArithStart::Stop(e) => (idle(s), StepResultModel::Fatal(e)),
                        ArithStart::Go { a, b } => (
                            waiting(idle(s), PendingModel::Arith),
                            StepResultModel::Ask(
                                QueryModel::Arith { op: ArithOp::Div, a, b },
                            ),
                        ),
                    }
                }
            },
            _ => (idle(s), StepResultModel::Defect(Defect::UnexpectedReply)),
        },
        PendingModel::Arith => match rm {
            ReplyModel::Bits(bits) => {
                if s.ip >= prog.len() {
                    (idle(s), StepResultModel::Defect(Defect::NoToken))
                } else {
                    let t = prog[s.ip as int];
                    if t.nargs != 3 {
                        (idle(s), StepResultModel::Defect(Defect::UnexpectedReply))
                    } else {
                        let dest = t.args.deep_view()[2];
                        if s.vars.contains_key(dest) && s.vars[dest] is VStr {
                            (idle(s), StepResultModel::Fatal(RuntimeError::StoringToString))
                        } else {
                            (
                                stored(idle(s), dest, ValueModel::VNum(bits)),
                                StepResultModel::Continue,
                            )
                        }
                    }
                }
            },
            _ => (idle(s), StepResultModel::Defect(Defect::UnexpectedReply)),
        },
        PendingModel::PrintArgs { upto, acc } => match rm {
            ReplyModel::Text(txt) => {
                if s.ip >= prog.len() {
                    (idle(s), StepResultModel::Defect(Defect::NoToken))
                } else {
                    let t = prog[s.ip as int];
                    match print_scan(t.args.deep_view(), s.vars, upto as int, acc + txt) {
                        PrintStep::Missing => (
                            idle(s),
                            StepResultModel::Fatal(RuntimeError::PrintVariableNotFound),
                        ),
                        PrintStep::Need { bits, next, acc } => (
                            waiting(idle(s), PendingModel::PrintArgs { upto: next, acc }),
                            StepResultModel::Ask(QueryModel::Render { a: bits }),
                        ),
                        PrintStep::Done(line) => (
                            advanced(idle(s)),
                            StepResultModel::Output(line),
                        ),
                    }
                }
            },
            _ => (idle(s), StepResultModel::Defect(Defect::UnexpectedReply)),
        },
        PendingModel::BranchTest { target } => match rm {
            ReplyModel::Truth(c) => {
                if s.ip >= prog.len() {
                    (idle(s), StepResultModel::Defect(Defect::NoToken))
                } else if c {
                    (
                        StateModel { ip: target, vars: s.vars, pending: PendingModel::Idle },
                        StepResultModel::Continue,
                    )
                } else {
                    (advanced(idle(s)), StepResultModel::Continue)
                }
            },
            _ => (idle(s), StepResultModel::Defect(Defect::UnexpectedReply)),
        },
        PendingModel::VarParse => match rm {
            ReplyModel::Bits(bits) => {
                if s.ip >= prog.len() {
                    (idle(s), StepResultModel::Defect(Defect::NoToken))
                } else {
                    let t = prog[s.ip as int];
                    if s.vars.contains_key(t.name@) && s.vars[t.name@] is VStr {
                        (
                            idle(s),
                            StepResultModel::Fatal(RuntimeError::TypeChangeStringToNumber),
                        )
                    } else {
                        (
                            stored(idle(s), t.name@, ValueModel::VNum(bits)),
                            StepResultModel::Continue,
                        )
                    }
                }
            },
            _ => (idle(s), StepResultModel::Defect(Defect::UnexpectedReply)),
        },
        PendingModel::ReadInput => match rm {
            ReplyModel::Text(line) => {
                if s.ip >= prog.len() {
                    (idle(s), StepResultModel::Defect(Defect::NoToken))
                } else {
                    let t = prog[s.ip as int];
                    let args = t.args.deep_view();
                    if t.nargs != 2 {
                        (idle(s), StepResultModel::Defect(Defect::UnexpectedReply))
                    } else if args[0].len() == 0 {
                        (idle(s), StepResultModel::Defect(Defect::InputWithoutChars))
                    } else if ascii_upper(args[0][0]) {
                        (
                            waiting(idle(s), PendingModel::InputParse),
                            StepResultModel::Ask(QueryModel::ParseInput { text: line }),
                        )
                    } else {
                        (
                            stored(idle(s), args[1], ValueModel::VStr(line)),
                            StepResultModel::Continue,
                        )
                    }
                }
            },
            _ => (idle(s), StepResultModel::Defect(Defect::UnexpectedReply)),
        },
        PendingModel::InputParse => match rm {
            ReplyModel::MaybeBits(o) => {
                if s.ip >= prog.len() {
                    (idle(s), StepResultModel::Defect(Defect::NoToken))
                } else {
                    let t = prog[s.ip as int];
                    let args = t.args.deep_view();
                    if t.nargs != 2 {
                        (idle(s), StepResultModel::Defect(Defect::UnexpectedReply))
                    } else {
                        match o {
                            None => (idle(s), StepResultModel::InputMismatch),
                            Some(bits) => (
                                stored(idle(s), args[1], ValueModel::VNum(bits)),
                                StepResultModel::Continue,
                            ),
                        }
                    }
                }
            },
            _ => (idle(s), StepResultModel::Defect(Defect::UnexpectedReply)),
        },
    }
}

/// What one step of the engine does: with no reply it fetches and begins
/// the instruction at the pointer; with a reply it finishes the pending
/// query.  The pending slot is empty after every step that does not ask.
pub open spec fn step_spec(
    s: StateModel,
    prog: Seq<Token>,
    labels: Map<Seq<char>, usize>,
    reply: Option<ReplyModel>,
) -> (StateModel, StepResultModel) {
    match reply {
        None => match s.pending {
            PendingModel::Idle => dispatch_spec(s, prog, labels),
            _ => (idle(s), StepResultModel::Defect(Defect::UnexpectedReply)),
        },
        Some(rm) => resume_spec(s, prog, labels, rm),
    }
}

/// A state with its pending slot set to `p`.
pub open spec fn with_pending(s: StateModel, p: PendingModel) -> StateModel {
    StateModel { ip: s.ip, vars: s.vars, pending: p }
}

/// How gathering a `Print` line stopped, in executable form.
pub enum PrintOut {
    Missing,
    Need { bits: u64, next: usize, acc: String },
    Done(String),
}

impl View for PrintOut {
    type V = PrintStep;

    open spec fn view(&self) -> PrintStep {
        match self {
            PrintOut::Missing => PrintStep::Missing,
            PrintOut::Need { bits, next, acc } => PrintStep::Need {
                bits: *bits,
                next: *next,
                acc: acc@,
            },
            PrintOut::Done(line) => PrintStep::Done(line@),
        }
    }
}

/// Gather a `Print` line from argument `from` on, starting from `acc0`.
fn print_scan_exec(t: &Token, vars: &NamedTable<Value>, from: usize, acc0: String) -> (r: PrintOut)
    requires
        vars.wf(),
        t.wf(),
        from <= t.args@.len(),
    ensures
        r@ == print_scan(t.args.deep_view(), store_model(vars@), from as int, acc0@),
{
    let ghost args = t.args.deep_view();
    let ghost vm = store_model(vars@);
    let mut acc = acc0;
    let ghost init = acc@;
    let mut i: usize = from;
    while i < t.args.len()
        invariant
            vars.wf(),
            t.wf(),
            from <= i <= t.args@.len(),
            args == t.args.deep_view(),
            args.len() == t.args@.len(),
            vm == store_model(vars@),
            init == acc0@,
            print_scan(args, vm, from as int, init) == print_scan(args, vm, i as int, acc@),
        decreases t.args@.len() - i,
    {
        proof {
            assert(args[i as int] == t.args@[i as int]@);
        }
        match vars.get(&t.args[i]) {
            None => {
                proof {
                    assert(!vm.contains_key(args[i as int]));
                }
                return PrintOut::Missing;
            },
            Some(v) => match v {
                Value::Str(c) => {
                    proof {
                        assert(vm[args[i as int]] == ValueModel::VStr(c@));
                    }
                    acc.append(c.as_str());
                    i = i + 1;
                },
                Value::Num(b) => {
                    proof {
                        assert(vm[args[i as int]] == ValueModel::VNum(*b));
                    }
                    return PrintOut::Need { bits: *b, next: i + 1, acc };
                },
            },
        }
    }
    PrintOut::Done(acc)
}

/// Validate an arithmetic token and fetch its operand numbers.
fn arith_start(t: &Token, vars: &NamedTable<Value>) -> (r: ArithStart)
    requires
        vars.wf(),
        t.wf(),
    ensures
        r == arith_start_spec(t.nargs, t.args.deep_view(), store_model(vars@)),
{
    if t.nargs != 3 {
        return ArithStart::Stop(RuntimeError::InvalidAmountArguments);
    }
    proof {
        assert(t.args.deep_view()[0] == t.args@[0]@);
        assert(t.args.deep_view()[1] == t.args@[1]@);
    }
    let a = match vars.get(&t.args[0]) {
        None => {
            return ArithStart::Stop(RuntimeError::VariableDoesNotExist);
        },
        Some(Value::Str(_)) => {
            return ArithStart::Stop(RuntimeError::ArithmeticOnString);
        },
        Some(Value::Num(a)) => *a,
    };
    let b = match vars.get(&t.args[1]) {
        None => {
            return ArithStart::Stop(RuntimeError::VariableDoesNotExist);
        },
        Some(Value::Str(_)) => {
            return ArithStart::Stop(RuntimeError::ArithmeticOnString);
        },
        Some(Value::Num(b)) => *b,
    };
    ArithStart::Go { a, b }
}

/// Validate a branch token and decide or prepare its comparison.
fn branch_start(t: &Token, vars: &NamedTable<Value>, labels: &NamedTable<usize>) -> (r: BranchStart)
    requires
        vars.wf(),
        labels.wf(),
        t.wf(),
    ensures
        r == branch_start_spec(t.name@, t.nargs, t.args.deep_view(), store_model(vars@), labels@),
{
    if t.nargs != 3 {
        return BranchStart::Stop(RuntimeError::BranchWrongArgCount);
    }
    if t.name.as_str().unicode_len() == 0 {
        return BranchStart::Stop(RuntimeError::EmptyBranchName);
    }
    proof {
        assert(t.args.deep_view()[0] == t.args@[0]@);
        assert(t.args.deep_view()[1] == t.args@[1]@);
        assert(t.args.deep_view()[2] == t.args@[2]@);
    }
    let target = match labels.get(&t.args[2]) {
        None => {
            return BranchStart::Stop(RuntimeError::LabelNotFound);
        },
        Some(x) => *x,
    };
    let cmp = match selector_for(t.name.as_str().get_char(0)) {
        None => {
            return BranchStart::Stop(RuntimeError::InvalidBranchSelector);
        },
        Some(k) => k,
    };
    let va = match vars.get(&t.args[0]) {
        None => {
            return BranchStart::Stop(RuntimeError::VariableDoesNotExist);
        },
        Some(v) => v,
    };
    let vb = match vars.get(&t.args[1]) {
        None => {
            return BranchStart::Stop(RuntimeError::VariableDoesNotExist);
        },
        Some(v) => v,
    };
    match (va, vb) {
        (Value::Num(a), Value::Num(b)) => BranchStart::Test { cmp, a: *a, b: *b, target },
        (Value::Str(x), Value::Str(y)) => match cmp {
            Comparator::Equal => BranchStart::Decided { taken: x.eq(y), target },
            _ => BranchStart::Stop(RuntimeError::InvalidComparisonForTypes),
        },
        _ => BranchStart::Stop(RuntimeError::VarsNotOfSameType),
    }
}

/// Copy a word list.
fn clone_words(v: &Vec<String>) -> (r: Vec<String>)
    ensures
        r@ == v@,
{
    let mut r: Vec<String> = Vec::new();
    let mut i: usize = 0;
    while i < v.len()
        invariant
            i <= v@.len(),
            r@ == v@.subrange(0, i as int),
        decreases v@.len() - i,
    {
        r.push(v[i].clone());
        proof {
            assert(r@ =~= v@.subrange(0, i + 1));
        }
        i = i + 1;
    }
    proof {
        assert(v@.subrange(0, v@.len() as int) =~= v@);
    }
    r
}

/// Begin the instruction at the pointer.
fn dispatch(state: &mut ExecState, prog: &Vec<Token>, labels: &NamedTable<usize>) -> (r: StepResult)
    requires
        old(state).wf(),
        old(state).pending is Idle,
        labels.wf(),
        forall|i: int| 0 <= i < prog@.len() ==> (#[trigger] prog@[i]).wf(),
    ensures
        final(state).wf(),
        final(state)@ == dispatch_spec(old(state)@, prog@, labels@).0,
        r@ == dispatch_spec(old(state)@, prog@, labels@).1,
{
    if state.ip >= prog.len() {
        return StepResult::Defect(Defect::NoToken);
    }
    let t = &prog[state.ip];
    let ghost args = t.args.deep_view();
    match t.op {
        Operation::Print => {
            match print_scan_exec(t, &state.vars, 0, String::new()) {
                PrintOut::Missing => StepResult::Fatal(RuntimeError::PrintVariableNotFound),
                PrintOut::Need { bits, next, acc } => {
                    state.pending = Pending::PrintArgs { upto: next, acc };
                    StepResult::Ask(Query::Render { a: bits })
                },
                PrintOut::Done(line) => {
                    state.ip = state.ip + 1;
                    StepResult::Output(line)
                },
            }
        },
        Operation::Input => {
            if t.nargs != 2 {
                return StepResult::Fatal(RuntimeError::InputWrongArgCount);
            }
            proof {
                assert(args[0] == t.args@[0]@);
            }
            if t.args[0].as_str().unicode_len() == 0 {
                return StepResult::Defect(Defect::InputWithoutChars);
            }
            state.pending = Pending::ReadInput;
            StepResult::Ask(Query::ReadLine)
        },
        Operation::Add | Operation::Sub | Operation::Mul => {
            let op = match t.op {
                Operation::Add => ArithOp::Add,
                Operation::Sub => ArithOp::Sub,
                _ => ArithOp::Mul,
            };
            match arith_start(t, &state.vars) {
                ArithStart::Stop(e) => StepResult::Fatal(e),
                ArithStart::Go { a, b } => {
                    state.pending = Pending::Arith;
                    StepResult::Ask(Query::Arith { op, a, b })
                },
            }
        },
        Operation::Div => {
            if t.nargs < 2 {
                return StepResult::Fatal(RuntimeError::InvalidAmountArguments);
            }
            proof {
                assert(args[1] == t.args@[1]@);
            }
            match state.vars.get(&t.args[1]) {
                None => StepResult::Fatal(RuntimeError::VariableDoesNotExist),
                Some(Value::Str(_)) => StepResult::Fatal(RuntimeError::ArithmeticOnString),
                Some(Value::Num(b)) => {
                    let bits = *b;
                    state.pending = Pending::DivCheck;
                    StepResult::Ask(Query::IsZero { a: bits })
                },
            }
        },
        Operation::Var => {
            if t.nargs == 0 {
                return StepResult::Fatal(RuntimeError::VarMissingArgs);
            }
            proof {
                assert(args[0] == t.args@[0]@);
            }
            if t.args[0].as_str().unicode_len() == 0 {
                return StepResult::Defect(Defect::VarWithoutChars);
            }
            if is_upper(t.args[0].as_str().get_char(0)) {
                match parse_text_number(clone_words(&t.args)) {
                    Err(e) => StepResult::Fatal(RuntimeError::NumberParse(e)),
                    Ok(lit) => {
                        state.pending = Pending::VarParse;
                        StepResult::Ask(Query::ParseDecimal { text: lit })
                    },
                }
            } else {
                let joined = join_words(&t.args, 0);
                match state.vars.get(&t.name) {
                    Some(Value::Num(_)) => StepResult::Fatal(
                        RuntimeError::TypeChangeNumberToString,
                    ),
                    _ => {
                        let val = Value::Str(joined);
                        let ghost gval = val;
                        let ghost before = state.vars@;
                        state.vars.insert(t.name.clone(), val);
                        proof {
                            lemma_store_model_insert(before, t.name@, gval);
                        }
                        state.ip = state.ip + 1;
                        StepResult::Continue
                    },
                }
            }
        },
        Operation::Branch => {
            match branch_start(t, &state.vars, labels) {
                BranchStart::Stop(e) => StepResult::Fatal(e),
                BranchStart::Test { cmp, a, b, target } => {
                    state.pending = Pending::BranchTest { target };
                    StepResult::Ask(Query::Compare { cmp, a, b })
                },
                BranchStart::Decided { taken, target } => {
                    if taken {
                        state.ip = target;
                    } else {
                        state.ip = state.ip + 1;
                    }
                    StepResult::Continue
                },
            }
        },
        Operation::Label => {
            state.ip = state.ip + 1;
            StepResult::Continue
        },
        Operation::Exit => StepResult::Halted,
        Operation::Invalid => StepResult::Defect(Defect::InvalidOperation),
    }
}

/// Finish the pending query with the driver's reply.
fn resume(
    state: &mut ExecState,
    prog: &Vec<Token>,
    labels: &NamedTable<usize>,
    pend: Pending,
    rep: Reply,
) -> (r: StepResult)
    requires
        old(state).wf(),
        old(state).pending is Idle,
        labels.wf(),
        forall|i: int| 0 <= i < prog@.len() ==> (#[trigger] prog@[i]).wf(),
    ensures
        final(state).wf(),
        final(state)@ == resume_spec(
            with_pending(old(state)@, pend@),
            prog@,
            labels@,
            rep@,
        ).0,
        r@ == resume_spec(with_pending(old(state)@, pend@), prog@, labels@, rep@).1,
{
    match (pend, rep) {
        (Pending::Idle, _) => StepResult::Defect(Defect::UnexpectedReply),
        (Pending::DivCheck, Reply::Truth(z)) => {
            if z {
                return StepResult::Fatal(RuntimeError::ZeroDivisionError);
            }
            if state.ip >= prog.len() {
                return StepResult::Defect(Defect::NoToken);
            }
            let t = &prog[state.ip];
            match arith_start(t, &state.vars) {
                ArithStart::Stop(e) => StepResult::Fatal(e),
                ArithStart::Go { a, b } => {
                    state.pending = Pending::Arith;
                    StepResult::Ask(Query::Arith { op: ArithOp::Div, a, b })
                },
            }
        },
        (Pending::Arith, Reply::Bits(bits)) => {
            if state.ip >= prog.len() {
                return StepResult::Defect(Defect::NoToken);
            }
            let t = &prog[state.ip];
            if t.nargs != 3 {
                return StepResult::Defect(Defect::UnexpectedReply);
            }
            proof {
                assert(t.args.deep_view()[2] == t.args@[2]@);
            }
            match state.vars.get(&t.args[2]) {
                Some(Value::Str(_)) => StepResult::Fatal(RuntimeError::StoringToString),
                _ => {
                    let ghost before = state.vars@;
                    state.vars.insert(t.args[2].clone(), Value::Num(bits));
                    proof {
                        lemma_store_model_insert(before, t.args@[2]@, Value::Num(bits));
                    }
                    state.ip = state.ip + 1;
                    StepResult::Continue
                },
            }
        },
        (Pending::PrintArgs { upto, acc }, Reply::Text(txt)) => {
            if state.ip >= prog.len() {
                return StepResult::Defect(Defect::NoToken);
            }
            let t = &prog[state.ip];
            let mut joined = acc;
            joined.append(txt.as_str());
            let from = if upto <= t.args.len() {
                upto
            } else {
                t.args.len()
            };
            proof {
                if upto > t.args@.len() {
                    assert(print_scan(t.args.deep_view(), store_model(state.vars@), upto as int, joined@)
                        == print_scan(
                        t.args.deep_view(),
                        store_model(state.vars@),
                        from as int,
                        joined@,
                    ));
                }
            }
            match print_scan_exec(t, &state.vars, from, joined) {
                PrintOut::Missing => StepResult::Fatal(RuntimeError::PrintVariableNotFound),
                PrintOut::Need { bits, next, acc } => {
                    state.pending = Pending::PrintArgs { upto: next, acc };
                    StepResult::Ask(Query::Render { a: bits })
                },
                PrintOut::Done(line) => {
                    state.ip = state.ip + 1;
                    StepResult::Output(line)
                },
            }
        },
        (Pending::BranchTest { target }, Reply::Truth(c)) => {
            if state.ip >= prog.len() {
                return StepResult::Defect(Defect::NoToken);
            }
            if c {
                state.ip = target;
            } else {
                state.ip = state.ip + 1;
            }
            StepResult::Continue
        },
        (Pending::VarParse, Reply::Bits(bits)) => {
            if state.ip >= prog.len() {
                return StepResult::Defect(Defect::NoToken);
            }
            let t = &prog[state.ip];
            match state.vars.get(&t.name) {
                Some(Value::Str(_)) => StepResult::Fatal(RuntimeError::TypeChangeStringToNumber),
                _ => {
                    let ghost before = state.vars@;
                    state.vars.insert(t.name.clone(), Value::Num(bits));
                    proof {
                        lemma_store_model_insert(before, t.name@, Value::Num(bits));
                    }
                    state.ip = state.ip + 1;
                    StepResult::Continue
                },
            }
        },
        (Pending::ReadInput, Reply::Text(line)) => {
            if state.ip >= prog.len() {
                return StepResult::Defect(Defect::NoToken);
            }
            let t = &prog[state.ip];
            if t.nargs != 2 {
                return StepResult::Defect(Defect::UnexpectedReply);
            }
            proof {
                assert(t.args.deep_view()[0] == t.args@[0]@);
                assert(t.args.deep_view()[1] == t.args@[1]@);
            }
            if t.args[0].as_str().unicode_len() == 0 {
                return StepResult::Defect(Defect::InputWithoutChars);
            }
            if is_ascii_upper(t.args[0].as_str().get_char(0)) {
                state.pending = Pending::InputParse;
                StepResult::Ask(Query::ParseInput { text: line })
            } else {
                let val = Value::Str(line);
                let ghost gval = val;
                let ghost before = state.vars@;
                state.vars.insert(t.args[1].clone(), val);
                proof {
                    lemma_store_model_insert(before, t.args@[1]@, gval);
                }
                state.ip = state.ip + 1;
                StepResult::Continue
            }
        },
        (Pending::InputParse, Reply::MaybeBits(o)) => {
            if state.ip >= prog.len() {
                return StepResult::Defect(Defect::NoToken);
            }
            let t = &prog[state.ip];
            if t.nargs != 2 {
                return StepResult::Defect(Defect::UnexpectedReply);
            }
            proof {
                assert(t.args.deep_view()[1] == t.args@[1]@);
            }
            match o {
                None => StepResult::InputMismatch,
                Some(bits) => {
                    let ghost before = state.vars@;
                    state.vars.insert(t.args[1].clone(), Value::Num(bits));
                    proof {
                        lemma_store_model_insert(before, t.args@[1]@, Value::Num(bits));
                    }
                    state.ip = state.ip + 1;
                    StepResult::Continue
                },
            }
        },
        (_, _) => StepResult::Defect(Defect::UnexpectedReply),
    }
}

/// Perform one step of the engine: with no reply, begin the instruction at
/// the pointer; with a reply, finish the pending query.
pub fn step(
    state: &mut ExecState,
    prog: &Vec<Token>,
    labels: &NamedTable<usize>,
    reply: Option<Reply>,
) -> (r: StepResult)
    requires
        old(state).wf(),
        labels.wf(),
        forall|i: int| 0 <= i < prog@.len() ==> (#[trigger] prog@[i]).wf(),
    ensures
        final(state).wf(),
        final(state)@ == step_spec(old(state)@, prog@, labels@, reply_opt_model(reply)).0,
        r@ == step_spec(old(state)@, prog@, labels@, reply_opt_model(reply)).1,
{
    let mut pend = Pending::Idle;
    core::mem::swap(&mut pend, &mut state.pending);
    match reply {
        None => match pend {
            Pending::Idle => dispatch(state, prog, labels),
            _ => StepResult::Defect(Defect::UnexpectedReply),
        },
        Some(rep) => resume(state, prog, labels, pend, rep),
    }
}

/// The store every run begins with: a newline, a single space and a period,
/// under the names `newl`, `spce` and `dott`.
pub open spec fn init_vars_spec() -> Map<Seq<char>, ValueModel> {
    Map::empty().insert("newl"@, ValueModel::VStr("\n"@)).insert(
        "spce"@,
        ValueModel::VStr(" "@),
    ).insert("dott"@, ValueModel::VStr("."@))
}

/// The state a run begins in: pointer at zero, nothing pending, the store
/// pre-seeded with the three builtin constants.
pub fn initial_state() -> (r: ExecState)
    ensures
        r.wf(),
        r@.ip == 0,
        r@.pending is Idle,
        r@.vars == init_vars_spec(),
{
    let mut vars: NamedTable<Value> = NamedTable::new();
    proof {
        assert(store_model(vars@) =~= Map::<Seq<char>, ValueModel>::empty());
    }
    let v0 = Value::Str(String::from_str("\n"));
    let ghost g0 = v0;
    let ghost m0 = vars@;
    vars.insert(String::from_str("newl"), v0);
    proof {
        lemma_store_model_insert(m0, "newl"@, g0);
    }
    let v1 = Value::Str(String::from_str(" "));
    let ghost g1 = v1;
    let ghost m1 = vars@;
    vars.insert(String::from_str("spce"), v1);
    proof {
        lemma_store_model_insert(m1, "spce"@, g1);
    }
    let v2 = Value::Str(String::from_str("."));
    let ghost g2 = v2;
    let ghost m2 = vars@;
    vars.insert(String::from_str("dott"), v2);
    proof {
        lemma_store_model_insert(m2, "dott"@, g2);
    }
    ExecState { ip: 0, vars, pending: Pending::Idle }
}

} // verus!
