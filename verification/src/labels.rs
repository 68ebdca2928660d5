//! The label resolver: one forward pass over the finished token sequence
//! builds the name-to-index map that branches jump through.  The first
//! definition of a name wins; a later duplicate, like a label carrying
//! arguments, only produces a warning.
use vstd::prelude::*;

use crate::opcode::Operation;
use crate::store::NamedTable;
use crate::token::Token;

verus! {

/// A non-fatal observation made while resolving labels.
#[derive(Debug)]
pub enum CompileWarning {
    /// The label token at this index has more than zero arguments.
    LabelWithArgs { index: usize },
    /// The label token at this index defines a name a second time.
    DuplicateLabel { index: usize, name: String },
}

/// The mathematical image of a warning.
pub enum WarningModel {
    LabelWithArgs { index: usize },
    DuplicateLabel { index: usize, name: Seq<char> },
}

impl View for CompileWarning {
    type V = WarningModel;

    open spec fn view(&self) -> WarningModel {
        match self {
            CompileWarning::LabelWithArgs { index } => WarningModel::LabelWithArgs {
                index: *index,
            },
            CompileWarning::DuplicateLabel { index, name } => WarningModel::DuplicateLabel {
                index: *index,
                name: name@,
            },
        }
    }
}

impl DeepView for CompileWarning {
    type V = WarningModel;

    open spec fn deep_view(&self) -> WarningModel {
        self.view()
    }
}

impl CompileWarning {
    /// The warning's display text.
    pub fn message(&self) -> (r: String)
        ensures
            r@ == match self@ {
                WarningModel::LabelWithArgs { .. } => "You have a label with more than zero arguments."@,
                WarningModel::DuplicateLabel { name, .. } => "You are defining the label `"@ + name
                    + "` more than once!"@,
            },
    {
        match self {
            CompileWarning::LabelWithArgs { .. } => String::from_str(
                "You have a label with more than zero arguments.",
            ),
            CompileWarning::DuplicateLabel { name, .. } => {
                let mut m = String::from_str("You are defining the label `");
                m.append(name.as_str());
                m.append("` more than once!");
                m
            },
        }
    }

    /// The token index the warning points at.
    pub fn index(&self) -> (r: usize)
        ensures
            r == match self@ {
                WarningModel::LabelWithArgs { index } => index,
                WarningModel::DuplicateLabel { index, .. } => index,
            },
    {
        match self {
            CompileWarning::LabelWithArgs { index } => *index,
            CompileWarning::DuplicateLabel { index, .. } => *index,
        }
    }
}

/// The label map after scanning the first `n` tokens: each label token
/// registers its name at its own index unless the name is already bound.
pub open spec fn labels_upto(prog: Seq<Token>, n: int) -> Map<Seq<char>, usize>
    decreases n,
{
    if n <= 0 {
        Map::empty()
    } else {
        let m = labels_upto(prog, n - 1);
        let t = prog[n - 1];
        if t.op == Operation::Label && !m.contains_key(t.name@) {
            m.insert(t.name@, (n - 1) as usize)
        } else {
            m
        }
    }
}

/// The label map of a whole token sequence.
pub open spec fn labels_spec(prog: Seq<Token>) -> Map<Seq<char>, usize> {
    labels_upto(prog, prog.len() as int)
}

/// The warnings the scan of the first `n` tokens emits, in order: a label
/// with arguments warns, and a duplicate name warns instead of registering.
pub open spec fn label_warnings_upto(prog: Seq<Token>, n: int) -> Seq<WarningModel>
    decreases n,
{
    if n <= 0 {
        Seq::empty()
    } else {
        let w = label_warnings_upto(prog, n - 1);
        let t = prog[n - 1];
        if t.op == Operation::Label {
            let w2 = if t.nargs > 0 {
                w.push(WarningModel::LabelWithArgs { index: (n - 1) as usize })
            } else {
                w
            };
            if labels_upto(prog, n - 1).contains_key(t.name@) {
                w2.push(WarningModel::DuplicateLabel { index: (n - 1) as usize, name: t.name@ })
            } else {
                w2
            }
        } else {
            w
        }
    }
}

/// The warnings of a whole token sequence.
pub open spec fn label_warnings_spec(prog: Seq<Token>) -> Seq<WarningModel> {
    label_warnings_upto(prog, prog.len() as int)
}

/// Scan a token sequence and build its label map, reporting the warnings in
/// the order they arise.
pub fn create_labels(tokens: &Vec<Token>) -> (r: (NamedTable<usize>, Vec<CompileWarning>))
    ensures
        r.0.wf(),
        r.0@ == labels_spec(tokens@),
        r.1.deep_view() == label_warnings_spec(tokens@),
{
    let mut labels: NamedTable<usize> = NamedTable::new();
    let mut warnings: Vec<CompileWarning> = Vec::new();
    let mut i: usize = 0;
    while i < tokens.len()
        invariant
            i <= tokens@.len(),
            labels.wf(),
            labels@ == labels_upto(tokens@, i as int),
            warnings.deep_view() == label_warnings_upto(tokens@, i as int),
        decreases tokens@.len() - i,
    {
        let t = &tokens[i];
        if t.op == Operation::Label {
            if t.nargs > 0 {
                let ghost prev = warnings.deep_view();
                warnings.push(CompileWarning::LabelWithArgs { index: i });
                proof {
                    assert(warnings.deep_view() =~= prev.push(
                        WarningModel::LabelWithArgs { index: i },
                    ));
                }
            }
            match labels.get(&t.name) {
                Some(_) => {
                    let ghost prev = warnings.deep_view();
                    warnings.push(
                        CompileWarning::DuplicateLabel { index: i, name: t.name.clone() },
                    );
                    proof {
                        assert(warnings.deep_view() =~= prev.push(
                            WarningModel::DuplicateLabel { index: i, name: t.name@ },
                        ));
                    }
                },
                None => {
                    labels.insert(t.name.clone(), i);
                },
            }
        }
        i = i + 1;
    }
    (labels, warnings)
}

} // verus!
