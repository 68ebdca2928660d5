//! The laws of the language, stated once and proved against the
//! specifications that the executable functions are verified against: how a
//! first word's signature selects its opcode, what a blank statement
//! yields, what a zero divisor does, where a taken branch lands, that a
//! variable's type never changes, and that the first of two equally named
//! labels wins.
use vstd::prelude::*;

use crate::engine::{
    step_spec, PendingModel, QueryModel, ReplyModel, RuntimeError, StateModel, StepResultModel,
};
use crate::labels::{label_warnings_spec, label_warnings_upto, labels_spec, labels_upto, WarningModel};
use crate::opcode::{opcode_spec, Operation};
use crate::store::ValueModel;
use crate::text::{ltrim_spec, rtrim_spec, upper_of, white_of};
use crate::token::{tokenize_spec, words_of, LineParseErrorTypes, Token, TokenModel};

verus! {

broadcast use vstd::map::group_map_axioms;

/// A statement whose first word exists and has characters is tokenized by
/// its signature alone: a (length, case) pair in the opcode table yields
/// exactly the mapped opcode with the first word as name and the rest as
/// arguments, and a pair outside the table is the UnknownOperation error.
pub proof fn lemma_signature_selects_opcode(s: Seq<char>)
    requires
        words_of(s).len() > 0,
        words_of(s)[0].len() > 0,
    ensures
        match opcode_spec(words_of(s)[0].len(), upper_of(words_of(s)[0][0])) {
            Some(op) => tokenize_spec(s) == Ok::<TokenModel, LineParseErrorTypes>(
                TokenModel {
                    op,
                    name: words_of(s)[0],
                    args: words_of(s).drop_first(),
                },
            ),
            None => tokenize_spec(s) == Err::<TokenModel, LineParseErrorTypes>(
                LineParseErrorTypes::UnknownOperation,
            ),
        },
{
}

proof fn lemma_ltrim_all_white(s: Seq<char>)
    requires
        forall|i: int| 0 <= i < s.len() ==> white_of(s[i]),
    ensures
        ltrim_spec(s).len() == 0,
    decreases s.len(),
{
    if s.len() > 0 {
        lemma_ltrim_all_white(s.drop_first());
    }
}

/// Tokenizing an empty or all-whitespace statement yields the
/// NoOpcodeProvided error.
pub proof fn lemma_blank_line_no_opcode(s: Seq<char>)
    requires
        forall|i: int| 0 <= i < s.len() ==> white_of(s[i]),
    ensures
        tokenize_spec(s) == Err::<TokenModel, LineParseErrorTypes>(
            LineParseErrorTypes::NoOpcodeProvided,
        ),
{
    lemma_ltrim_all_white(s);
    assert(rtrim_spec(ltrim_spec(s)).len() == 0);
}

/// A division whose divisor variable holds a number first asks the zero
/// test on exactly that number's bits, changing nothing; when the test
/// answers that the divisor is zero, the step aborts with
/// ZeroDivisionError and the store — the destination variable among the
/// rest — is exactly what it was before the instruction.
pub proof fn lemma_zero_division_aborts(
    s: StateModel,
    prog: Seq<Token>,
    labels: Map<Seq<char>, usize>,
    bits: u64,
)
    requires
        s.pending is Idle,
        s.ip < prog.len(),
        prog[s.ip as int].op == Operation::Div,
        prog[s.ip as int].nargs >= 2,
        s.vars.contains_key(prog[s.ip as int].args.deep_view()[1]),
        s.vars[prog[s.ip as int].args.deep_view()[1]] == ValueModel::VNum(bits),
    ensures
        ({
            let (s1, r1) = step_spec(s, prog, labels, None);
            let (s2, r2) = step_spec(s1, prog, labels, Some(ReplyModel::Truth(true)));
            r1 == StepResultModel::Ask(QueryModel::IsZero { a: bits }) && s1.vars == s.vars
                && s1.ip == s.ip && r2 == StepResultModel::Fatal(RuntimeError::ZeroDivisionError)
                && s2.vars == s.vars && s2.ip == s.ip
        }),
{
}

/// A branch to a name absent from the label map aborts fatally.
pub proof fn lemma_branch_unknown_label(
    s: StateModel,
    prog: Seq<Token>,
    labels: Map<Seq<char>, usize>,
)
    requires
        s.pending is Idle,
        s.ip < prog.len(),
        prog[s.ip as int].op == Operation::Branch,
        prog[s.ip as int].nargs == 3,
        prog[s.ip as int].name@.len() > 0,
        !labels.contains_key(prog[s.ip as int].args.deep_view()[2]),
    ensures
        ({
            let (s1, r1) = step_spec(s, prog, labels, None);
            r1 == StepResultModel::Fatal(RuntimeError::LabelNotFound) && s1.vars == s.vars
                && s1.ip == s.ip
        }),
{
}

/// A taken branch sets the instruction pointer to exactly the label's
/// recorded index; the label token there then does nothing, and execution
/// continues at the index right after it.
pub proof fn lemma_branch_taken_lands_on_label(
    s: StateModel,
    prog: Seq<Token>,
    labels: Map<Seq<char>, usize>,
    target: usize,
)
    requires
        s.pending == (PendingModel::BranchTest { target }),
        prog.len() <= usize::MAX,
        s.ip < prog.len(),
        target < prog.len(),
        prog[target as int].op == Operation::Label,
    ensures
        ({
            let (s1, r1) = step_spec(s, prog, labels, Some(ReplyModel::Truth(true)));
            let (s2, r2) = step_spec(s1, prog, labels, None);
            s1.ip == target && s1.vars == s.vars && r1 == StepResultModel::Continue && s2.ip
                == target + 1 && s2.vars == s.vars && r2 == StepResultModel::Continue
        }),
{
}

/// A branch whose comparison does not hold falls through to the next
/// instruction, whatever the target was.
pub proof fn lemma_branch_not_taken(
    s: StateModel,
    prog: Seq<Token>,
    labels: Map<Seq<char>, usize>,
    target: usize,
)
    requires
        s.pending == (PendingModel::BranchTest { target }),
        prog.len() <= usize::MAX,
        s.ip < prog.len(),
    ensures
        ({
            let (s1, r1) = step_spec(s, prog, labels, Some(ReplyModel::Truth(false)));
            s1.ip == s.ip + 1 && s1.vars == s.vars && r1 == StepResultModel::Continue
        }),
{
}

/// Declaring a string into a variable that holds a number is fatal, and
/// the store does not change.
pub proof fn lemma_var_keeps_number_tag(
    s: StateModel,
    prog: Seq<Token>,
    labels: Map<Seq<char>, usize>,
)
    requires
        s.pending is Idle,
        s.ip < prog.len(),
        prog[s.ip as int].op == Operation::Var,
        prog[s.ip as int].nargs > 0,
        prog[s.ip as int].args.deep_view()[0].len() > 0,
        !upper_of(prog[s.ip as int].args.deep_view()[0][0]),
        s.vars.contains_key(prog[s.ip as int].name@),
        s.vars[prog[s.ip as int].name@] is VNum,
    ensures
        ({
            let (s1, r1) = step_spec(s, prog, labels, None);
            r1 == StepResultModel::Fatal(RuntimeError::TypeChangeNumberToString) && s1.vars
                == s.vars && s1.ip == s.ip
        }),
{
}

/// Storing a parsed number into a variable that holds a string is fatal,
/// and the store does not change.
pub proof fn lemma_var_keeps_string_tag(
    s: StateModel,
    prog: Seq<Token>,
    labels: Map<Seq<char>, usize>,
    bits: u64,
)
    requires
        s.pending is VarParse,
        s.ip < prog.len(),
        s.vars.contains_key(prog[s.ip as int].name@),
        s.vars[prog[s.ip as int].name@] is VStr,
    ensures
        ({
            let (s1, r1) = step_spec(s, prog, labels, Some(ReplyModel::Bits(bits)));
            r1 == StepResultModel::Fatal(RuntimeError::TypeChangeStringToNumber) && s1.vars
                == s.vars && s1.ip == s.ip
        }),
{
}

/// Storing an arithmetic result into a destination that holds a string is
/// fatal, and the store does not change.
pub proof fn lemma_arith_destination_keeps_tag(
    s: StateModel,
    prog: Seq<Token>,
    labels: Map<Seq<char>, usize>,
    bits: u64,
)
    requires
        s.pending is Arith,
        s.ip < prog.len(),
        prog[s.ip as int].nargs == 3,
        s.vars.contains_key(prog[s.ip as int].args.deep_view()[2]),
        s.vars[prog[s.ip as int].args.deep_view()[2]] is VStr,
    ensures
        ({
            let (s1, r1) = step_spec(s, prog, labels, Some(ReplyModel::Bits(bits)));
            r1 == StepResultModel::Fatal(RuntimeError::StoringToString) && s1.vars == s.vars
                && s1.ip == s.ip
        }),
{
}

proof fn lemma_labels_upto_registered(prog: Seq<Token>, n: int, k: int)
    requires
        prog.len() <= usize::MAX,
        0 <= k < n <= prog.len(),
        prog[k].op == Operation::Label,
    ensures
        labels_upto(prog, n).contains_key(prog[k].name@),
        labels_upto(prog, n)[prog[k].name@] <= k,
    decreases n,
{
    if k == n - 1 {
        if labels_upto(prog, n - 1).contains_key(prog[k].name@) {
            lemma_labels_upto_bound(prog, n - 1, prog[k].name@);
        }
    } else {
        lemma_labels_upto_registered(prog, n - 1, k);
    }
}

proof fn lemma_labels_upto_bound(prog: Seq<Token>, n: int, nm: Seq<char>)
    requires
        prog.len() <= usize::MAX,
        0 <= n <= prog.len(),
        labels_upto(prog, n).contains_key(nm),
    ensures
        labels_upto(prog, n)[nm] < n,
        prog[labels_upto(prog, n)[nm] as int].op == Operation::Label,
        prog[labels_upto(prog, n)[nm] as int].name@ == nm,
    decreases n,
{
    if n > 0 {
        let m = labels_upto(prog, n - 1);
        if m.contains_key(nm) {
            lemma_labels_upto_bound(prog, n - 1, nm);
        }
    }
}

proof fn lemma_warnings_upto_monotone(prog: Seq<Token>, n: int, w: WarningModel)
    requires
        0 <= n <= prog.len(),
        label_warnings_upto(prog, n).contains(w),
    ensures
        label_warnings_spec(prog).contains(w),
    decreases prog.len() - n,
{
    if n < prog.len() {
        let cur = label_warnings_upto(prog, n);
        let idx = choose|i: int| 0 <= i < cur.len() && cur[i] == w;
        assert(label_warnings_upto(prog, n + 1)[idx] == w);
        lemma_warnings_upto_monotone(prog, n + 1, w);
    }
}

/// When two label tokens carry one name, the earlier index wins: the label
/// map binds the name to an index no later than the first, that index is
/// itself a label of that name, and the second definition only leaves a
/// duplicate-label warning.
pub proof fn lemma_duplicate_label_first_wins(prog: Seq<Token>, i: int, j: int)
    requires
        prog.len() <= usize::MAX,
        0 <= i < j < prog.len(),
        prog[i].op == Operation::Label,
        prog[j].op == Operation::Label,
        prog[i].name@ == prog[j].name@,
    ensures
        labels_spec(prog).contains_key(prog[j].name@),
        labels_spec(prog)[prog[j].name@] <= i,
        prog[labels_spec(prog)[prog[j].name@] as int].op == Operation::Label,
        prog[labels_spec(prog)[prog[j].name@] as int].name@ == prog[j].name@,
        label_warnings_spec(prog).contains(
            WarningModel::DuplicateLabel { index: j as usize, name: prog[j].name@ },
        ),
{
    let nm = prog[j].name@;
    lemma_labels_upto_registered(prog, prog.len() as int, i);
    lemma_labels_upto_bound(prog, prog.len() as int, nm);
    lemma_labels_upto_registered(prog, j, i);
    let w = WarningModel::DuplicateLabel { index: j as usize, name: nm };
    let upto = label_warnings_upto(prog, j + 1);
    assert(upto.last() == w);
    assert(upto.contains(w)) by {
        assert(upto[upto.len() - 1] == w);
    }
    lemma_warnings_upto_monotone(prog, j + 1, w);
}

} // verus!
