use vstd::prelude::*;
use vstd::string::StringExecFns;

use crate::chars::{chars_of, lex_cmp, lex_compare};
use crate::error::{ErrorView, RequirementError};
use crate::marker::{EnvMarkerExpr, MarkerView, Op, Value, ValueView};
use crate::parser::word_matches;
use crate::specifier::CompareOp;

verus! {

/// Where marker variables get their values.
pub trait Env {
    /// The value of `var`, if it is defined.
    spec fn lookup(&self, var: Seq<char>) -> Option<Seq<char>>;

    fn get_marker_var(&self, var: &str) -> (r: Option<&str>)
        ensures
            (match r {
                Some(v) => self.lookup(var@) == Some(v@),
                None => self.lookup(var@) is None,
            }),
    ;
}

/// The value of the first entry whose key is `var`.
pub open spec fn assoc_lookup(entries: Seq<(String, String)>, var: Seq<char>) -> Option<Seq<char>>
    decreases entries.len(),
{
    if entries.len() == 0 {
        None
    } else if entries[0].0@ == var {
        Some(entries[0].1@)
    } else {
        assoc_lookup(entries.drop_first(), var)
    }
}

/// An environment given as (name, value) pairs; the first pair with a name wins.
impl Env for Vec<(String, String)> {
    open spec fn lookup(&self, var: Seq<char>) -> Option<Seq<char>> {
        assoc_lookup(self@, var)
    }

    fn get_marker_var(&self, var: &str) -> (r: Option<&str>) {
        let key = String::from_str(var);
        let mut i: usize = 0;
        assert(self@.skip(0) =~= self@);
        while i < self.len()
            invariant
                key@ == var@,
                i <= self@.len(),
                assoc_lookup(self@, var@) == assoc_lookup(self@.skip(i as int), var@),
            decreases self@.len() - i,
        {
            proof {
                assert(self@.skip(i as int).drop_first() =~= self@.skip(i as int + 1));
            }
            if self[i].0 == key {
                return Some(self[i].1.as_str());
            }
            i = i + 1;
        }
        None
    }
}

/// Whether a comparison with outcome `o` satisfies `op`; `~=` is read as `>=`.
pub open spec fn compare_holds(op: CompareOp, o: int) -> bool {
    match op {
        CompareOp::LessThanEqual => o <= 0,
        CompareOp::StrictlyLessThan => o < 0,
        CompareOp::NotEqual => o != 0,
        CompareOp::Equal => o == 0,
        CompareOp::GreaterThanEqual => o >= 0,
        CompareOp::StrictlyGreaterThan => o > 0,
        CompareOp::Compatible => o >= 0,
    }
}

/// `needle` stands somewhere in `hay`.
pub open spec fn is_substring(needle: Seq<char>, hay: Seq<char>) -> bool {
    exists|k: int|
        0 <= k && k + needle.len() <= hay.len() && #[trigger] hay.subrange(k, k + needle.len())
            == needle
}

pub open spec fn apply_op(op: Op, a: Seq<char>, b: Seq<char>) -> bool {
    match op {
        Op::Compare(c) => compare_holds(c, lex_cmp(a, b)),
        Op::In => is_substring(a, b),
        Op::NotIn => !is_substring(a, b),
    }
}

/// A literal stands for itself, a variable for its value in `env`.
pub open spec fn resolve<E: Env>(env: &E, v: ValueView) -> Result<Seq<char>, ErrorView> {
    match v {
        ValueView::Literal(l) => Ok(l),
        ValueView::Variable(n) => match env.lookup(n) {
            Some(x) => Ok(x),
            None => Err(ErrorView::UndefinedVariable(n)),
        },
    }
}

/// The truth of a marker in `env`: `and` and `or` look at their right side
/// only when the left one does not decide, and a variable that `env` lacks
/// is an error.
pub open spec fn eval_marker<E: Env>(env: &E, e: MarkerView) -> Result<bool, ErrorView>
    decreases e,
{
    match e {
        MarkerView::And(l, r) => match eval_marker(env, *l) {
            Err(x) => Err(x),
            Ok(false) => Ok(false),
            Ok(true) => eval_marker(env, *r),
        },
        MarkerView::Or(l, r) => match eval_marker(env, *l) {
            Err(x) => Err(x),
            Ok(true) => Ok(true),
            Ok(false) => eval_marker(env, *r),
        },
        MarkerView::Operator { op, lhs, rhs } => match resolve(env, lhs) {
            Err(x) => Err(x),
            Ok(a) => match resolve(env, rhs) {
                Err(x) => Err(x),
                Ok(b) => Ok(apply_op(op, a, b)),
            },
        },
    }
}

fn find(needle: &Vec<char>, hay: &Vec<char>) -> (r: bool)
    ensures
        r == is_substring(needle@, hay@),
{
    if needle.len() > hay.len() {
        return false;
    }
    let n = needle.len();
    let last = hay.len() - n;
    let mut k: usize = 0;
    loop
        invariant
            n == needle@.len(),
            last + n == hay@.len(),
            last + n <= usize::MAX,
            k <= last,
            forall|j: int| 0 <= j < k ==> #[trigger] hay@.subrange(j, j + n) != needle@,
        decreases last - k,
    {
        if word_matches(hay, k, k + n, needle) {
            return true;
        }
        if k == last {
            return false;
        }
        k = k + 1;
    }
}

fn holds(op: Op, a: &str, b: &str) -> (r: bool)
    ensures
        r == apply_op(op, a@, b@),
{
    let av = chars_of(a);
    let bv = chars_of(b);
    match op {
        Op::Compare(c) => {
            let o = lex_compare(&av, &bv);
            match c {
                CompareOp::LessThanEqual => o <= 0,
                CompareOp::StrictlyLessThan => o < 0,
                CompareOp::NotEqual => o != 0,
                CompareOp::Equal => o == 0,
                CompareOp::GreaterThanEqual => o >= 0,
                CompareOp::StrictlyGreaterThan => o > 0,
                CompareOp::Compatible => o >= 0,
            }
        },
        Op::In => find(&av, &bv),
        Op::NotIn => !find(&av, &bv),
    }
}

fn resolve_value<'a, E: Env>(env: &'a E, v: &'a Value) -> (r: Result<&'a str, RequirementError>)
    ensures
        (match r {
            Ok(x) => resolve(env, v@) == Ok::<Seq<char>, ErrorView>(x@),
            Err(e) => resolve(env, v@) == Err::<Seq<char>, ErrorView>(e@),
        }),
{
    match v {
        Value::Literal(l) => Ok(l.as_str()),
        Value::Variable(n) => match env.get_marker_var(n.as_str()) {
            Some(x) => Ok(x),
            None => Err(RequirementError::UndefinedVariable { name: n.clone() }),
        },
    }
}

impl EnvMarkerExpr {
    /// Evaluates the marker in `env`; see `eval_marker`.
    pub fn evaluate<E: Env>(&self, env: &E) -> (r: Result<bool, RequirementError>)
        ensures
            (match r {
                Ok(b) => eval_marker(env, self@) == Ok::<bool, ErrorView>(b),
                Err(e) => eval_marker(env, self@) == Err::<bool, ErrorView>(e@),
            }),
        decreases self,
    {
        match self {
            EnvMarkerExpr::And(l, r) => match l.evaluate(env) {
                Err(x) => Err(x),
                Ok(false) => Ok(false),
                Ok(true) => r.evaluate(env),
            },
            EnvMarkerExpr::Or(l, r) => match l.evaluate(env) {
                Err(x) => Err(x),
                Ok(true) => Ok(true),
                Ok(false) => r.evaluate(env),
            },
            EnvMarkerExpr::Operator { op, lhs, rhs } => {
                let a = match resolve_value(env, lhs) {
                    Ok(x) => x,
                    Err(e) => return Err(e),
                };
                let b = match resolve_value(env, rhs) {
                    Ok(x) => x,
                    Err(e) => return Err(e),
                };
                Ok(holds(*op, a, b))
            },
        }
    }
}

} // verus!
