use vstd::prelude::*;
use vstd::string::StringExecFns;

use crate::chars::{contains_char, in_class, CharClass};
use crate::specifier::{compare_op_text, CompareOp};

verus! {

/// An operand of a marker comparison.
#[derive(Debug, Clone, PartialEq, Eq, Hash)]
pub enum Value {
    /// An environment variable such as `python_version`.
    Variable(String),
    /// A quoted string.
    Literal(String),
}

pub enum ValueView {
    Variable(Seq<char>),
    Literal(Seq<char>),
}

impl View for Value {
    type V = ValueView;

    open spec fn view(&self) -> ValueView {
        match self {
            Value::Variable(n) => ValueView::Variable(n@),
            Value::Literal(l) => ValueView::Literal(l@),
        }
    }
}

/// The operator of a marker comparison.
#[derive(Debug, Clone, Copy, PartialEq, Eq, Hash, Structural)]
pub enum Op {
    Compare(CompareOp),
    In,
    NotIn,
}

/// A boolean expression over environment variables and literals.
#[derive(Debug, PartialEq, Eq, Hash)]
pub enum EnvMarkerExpr {
    And(Box<EnvMarkerExpr>, Box<EnvMarkerExpr>),
    Or(Box<EnvMarkerExpr>, Box<EnvMarkerExpr>),
    Operator { op: Op, lhs: Value, rhs: Value },
}

pub enum MarkerView {
    And(Box<MarkerView>, Box<MarkerView>),
    Or(Box<MarkerView>, Box<MarkerView>),
    Operator { op: Op, lhs: ValueView, rhs: ValueView },
}

impl View for EnvMarkerExpr {
    type V = MarkerView;

    open spec fn view(&self) -> MarkerView
        decreases self,
    {
        match self {
            EnvMarkerExpr::And(l, r) => MarkerView::And(
                Box::new((**l).view()),
                Box::new((**r).view()),
            ),
            EnvMarkerExpr::Or(l, r) => MarkerView::Or(Box::new((**l).view()), Box::new((**r).view())),
            EnvMarkerExpr::Operator { op, lhs, rhs } => MarkerView::Operator {
                op: *op,
                lhs: lhs@,
                rhs: rhs@,
            },
        }
    }
}

/// The quote a literal is written with: single quotes when it holds a
/// double quote, double quotes otherwise.
pub open spec fn quote_for(l: Seq<char>) -> char {
    if l.contains('"') {
        '\''
    } else {
        '"'
    }
}

pub open spec fn value_text(v: ValueView) -> Seq<char> {
    match v {
        ValueView::Variable(n) => n,
        ValueView::Literal(l) => seq![quote_for(l)] + l + seq![quote_for(l)],
    }
}

pub open spec fn op_text(op: Op) -> Seq<char> {
    match op {
        Op::Compare(c) => compare_op_text(c),
        Op::In => seq!['i', 'n'],
        Op::NotIn => seq!['n', 'o', 't', ' ', 'i', 'n'],
    }
}

/// `lhs op rhs`, with one blank on each side of the operator.
pub open spec fn leaf_text(op: Op, lhs: ValueView, rhs: ValueView) -> Seq<char> {
    value_text(lhs) + seq![' '] + op_text(op) + seq![' '] + value_text(rhs)
}

pub open spec fn and_sep() -> Seq<char> {
    seq![' ', 'a', 'n', 'd', ' ']
}

pub open spec fn or_sep() -> Seq<char> {
    seq![' ', 'o', 'r', ' ']
}

/// The text of a marker: a nested conjunction or disjunction is put in
/// parentheses, the outermost one is not.
pub open spec fn marker_text(e: MarkerView) -> Seq<char>
    decreases e, 0nat,
{
    match e {
        MarkerView::And(l, r) => group_text(*l) + and_sep() + group_text(*r),
        MarkerView::Or(l, r) => group_text(*l) + or_sep() + group_text(*r),
        MarkerView::Operator { op, lhs, rhs } => leaf_text(op, lhs, rhs),
    }
}

/// The text of a marker that stands as an operand of `and` or `or`.
pub open spec fn group_text(e: MarkerView) -> Seq<char>
    decreases e, 1nat,
{
    match e {
        MarkerView::Operator { op, lhs, rhs } => leaf_text(op, lhs, rhs),
        _ => seq!['('] + marker_text(e) + seq![')'],
    }
}

/// A value that reads back as itself: a variable is a non-empty run of
/// variable chars, a literal does not hold both kinds of quote.
pub open spec fn wf_value(v: ValueView) -> bool {
    match v {
        ValueView::Variable(n) => n.len() > 0 && forall|i: int|
            0 <= i < n.len() ==> in_class(#[trigger] n[i], CharClass::VarChar),
        ValueView::Literal(l) => !(l.contains('"') && l.contains('\'')),
    }
}

pub open spec fn wf_marker(e: MarkerView) -> bool
    decreases e,
{
    match e {
        MarkerView::And(l, r) => wf_marker(*l) && wf_marker(*r),
        MarkerView::Or(l, r) => wf_marker(*l) && wf_marker(*r),
        MarkerView::Operator { op, lhs, rhs } => wf_value(lhs) && wf_value(rhs),
    }
}

impl Value {
    fn copy(&self) -> (r: Value)
        ensures
            r@ == self@,
    {
        match self {
            Value::Variable(n) => Value::Variable(n.clone()),
            Value::Literal(l) => Value::Literal(l.clone()),
        }
    }

    /// A variable as its bare name, a literal in quotes.
    pub fn to_string(&self) -> (r: String)
        ensures
            r@ == value_text(self@),
    {
        match self {
            Value::Variable(n) => n.clone(),
            Value::Literal(l) => {
                let q = if contains_char(l.as_str(), '"') {
                    proof {
                        reveal_strlit("'");
                    }
                    "'"
                } else {
                    proof {
                        reveal_strlit("\"");
                    }
                    "\""
                };
                let mut out = String::from_str(q);
                out.append(l.as_str());
                out.append(q);
                assert(out@ =~= value_text(self@));
                out
            },
        }
    }
}

impl Op {
    fn as_str(&self) -> (r: &'static str)
        ensures
            r@ == op_text(*self),
    {
        match self {
            Op::Compare(c) => c.as_str(),
            Op::In => {
                proof {
                    reveal_strlit("in");
                }
                "in"
            },
            Op::NotIn => {
                proof {
                    reveal_strlit("not in");
                }
                "not in"
            },
        }
    }
}

fn push_leaf(out: &mut String, op: Op, lhs: &Value, rhs: &Value)
    ensures
        final(out)@ == old(out)@ + leaf_text(op, lhs@, rhs@),
{
    proof {
        reveal_strlit(" ");
    }
    let l = lhs.to_string();
    let r = rhs.to_string();
    out.append(l.as_str());
    out.append(" ");
    out.append(op.as_str());
    out.append(" ");
    out.append(r.as_str());
    assert(final(out)@ =~= old(out)@ + leaf_text(op, lhs@, rhs@));
}

impl EnvMarkerExpr {
    /// A copy of the whole tree.
    fn deep_copy(&self) -> (r: EnvMarkerExpr)
        ensures
            r@ == self@,
        decreases self,
    {
        match self {
            EnvMarkerExpr::And(l, r) => EnvMarkerExpr::And(
                Box::new(l.deep_copy()),
                Box::new(r.deep_copy()),
            ),
            EnvMarkerExpr::Or(l, r) => EnvMarkerExpr::Or(
                Box::new(l.deep_copy()),
                Box::new(r.deep_copy()),
            ),
            EnvMarkerExpr::Operator { op, lhs, rhs } => EnvMarkerExpr::Operator {
                op: *op,
                lhs: lhs.copy(),
                rhs: rhs.copy(),
            },
        }
    }

    /// The marker's text; see `marker_text`.
    pub fn to_string(&self) -> (r: String)
        ensures
            r@ == marker_text(self@),
    {
        let mut out = String::new();
        self.push_text(&mut out);
        assert(out@ =~= marker_text(self@));
        out
    }

    fn push_text(&self, out: &mut String)
        ensures
            final(out)@ == old(out)@ + marker_text(self@),
        decreases self, 0nat,
    {
        match self {
            EnvMarkerExpr::And(l, r) => {
                proof {
                    reveal_strlit(" and ");
                }
                l.push_group(out);
                out.append(" and ");
                r.push_group(out);
            },
            EnvMarkerExpr::Or(l, r) => {
                proof {
                    reveal_strlit(" or ");
                }
                l.push_group(out);
                out.append(" or ");
                r.push_group(out);
            },
            EnvMarkerExpr::Operator { op, lhs, rhs } => {
                push_leaf(out, *op, lhs, rhs);
            },
        }
        assert(final(out)@ =~= old(out)@ + marker_text(self@));
    }

    fn push_group(&self, out: &mut String)
        ensures
            final(out)@ == old(out)@ + group_text(self@),
        decreases self, 1nat,
    {
        match self {
            EnvMarkerExpr::Operator { op, lhs, rhs } => {
                push_leaf(out, *op, lhs, rhs);
            },
            _ => {
                proof {
                    reveal_strlit("(");
                    reveal_strlit(")");
                }
                out.append("(");
                self.push_text(out);
                out.append(")");
                assert(final(out)@ =~= old(out)@ + group_text(self@));
            },
        }
    }
}

impl Clone for EnvMarkerExpr {
    fn clone(&self) -> (r: EnvMarkerExpr)
        ensures
            r@ == self@,
    {
        self.deep_copy()
    }
}

} // verus!
