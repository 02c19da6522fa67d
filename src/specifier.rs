use vstd::prelude::*;
use vstd::string::StringExecFns;

use crate::error::{ErrorView, RequirementError};

verus! {

/// A version comparison operator.
#[derive(Debug, Clone, Copy, PartialEq, Eq, Hash, Structural)]
pub enum CompareOp {
    LessThanEqual,
    StrictlyLessThan,
    NotEqual,
    Equal,
    GreaterThanEqual,
    StrictlyGreaterThan,
    Compatible,
}

/// The source spelling of each operator.
pub open spec fn compare_op_text(op: CompareOp) -> Seq<char> {
    match op {
        CompareOp::LessThanEqual => seq!['<', '='],
        CompareOp::StrictlyLessThan => seq!['<'],
        CompareOp::NotEqual => seq!['!', '='],
        CompareOp::Equal => seq!['=', '='],
        CompareOp::GreaterThanEqual => seq!['>', '='],
        CompareOp::StrictlyGreaterThan => seq!['>'],
        CompareOp::Compatible => seq!['~', '='],
    }
}

/// What an operator token reads as: one of the seven operators, the
/// recognized but unsupported `===`, or nothing known.
pub open spec fn compare_op_from(tok: Seq<char>) -> Result<CompareOp, ErrorView> {
    if tok == seq!['<', '='] {
        Ok(CompareOp::LessThanEqual)
    } else if tok == seq!['<'] {
        Ok(CompareOp::StrictlyLessThan)
    } else if tok == seq!['!', '='] {
        Ok(CompareOp::NotEqual)
    } else if tok == seq!['=', '='] {
        Ok(CompareOp::Equal)
    } else if tok == seq!['>', '='] {
        Ok(CompareOp::GreaterThanEqual)
    } else if tok == seq!['>'] {
        Ok(CompareOp::StrictlyGreaterThan)
    } else if tok == seq!['~', '='] {
        Ok(CompareOp::Compatible)
    } else if tok == seq!['=', '=', '='] {
        Err(ErrorView::UnsupportedOperator)
    } else {
        Err(ErrorView::UnrecognizedOperator(tok))
    }
}

/// Each operator reads back from its own spelling, and a token that reads as
/// an operator is that operator's spelling; `===` is refused as unsupported.
pub proof fn lemma_operator_bijection(op: CompareOp, tok: Seq<char>)
    ensures
        compare_op_from(compare_op_text(op)) == Ok::<CompareOp, ErrorView>(op),
        compare_op_from(tok) == Ok::<CompareOp, ErrorView>(op) ==> compare_op_text(op) == tok,
        compare_op_from(seq!['=', '=', '=']) == Err::<CompareOp, ErrorView>(
            ErrorView::UnsupportedOperator,
        ),
{
    lemma_operator_spellings();
}

/// The lengths and characters of the operator spellings, from which their
/// pairwise differences follow.
proof fn lemma_operator_spellings()
    ensures
        seq!['<', '='].len() == 2 && seq!['<', '='][0] == '<' && seq!['<', '='][1] == '=',
        seq!['<'].len() == 1 && seq!['<'][0] == '<',
        seq!['!', '='].len() == 2 && seq!['!', '='][0] == '!' && seq!['!', '='][1] == '=',
        seq!['=', '='].len() == 2 && seq!['=', '='][0] == '=' && seq!['=', '='][1] == '=',
        seq!['>', '='].len() == 2 && seq!['>', '='][0] == '>' && seq!['>', '='][1] == '=',
        seq!['>'].len() == 1 && seq!['>'][0] == '>',
        seq!['~', '='].len() == 2 && seq!['~', '='][0] == '~' && seq!['~', '='][1] == '=',
        seq!['=', '=', '='].len() == 3 && seq!['=', '=', '='][0] == '=',
{
}

impl CompareOp {
    /// Reads an operator token.
    pub fn parse(token: &str) -> (r: Result<CompareOp, RequirementError>)
        ensures
            (match r {
                Ok(op) => compare_op_from(token@) == Ok::<CompareOp, ErrorView>(op),
                Err(e) => compare_op_from(token@) == Err::<CompareOp, ErrorView>(e@),
            }),
    {
        let s = crate::chars::chars_of(token);
        let n = s.len();
        assert(s@.subrange(0, n as int) =~= token@);
        compare_op_in(token, &s, 0, n)
    }

    pub(crate) fn as_str(&self) -> (r: &'static str)
        ensures
            r@ == compare_op_text(*self),
    {
        match self {
            CompareOp::LessThanEqual => {
                proof {
                    reveal_strlit("<=");
                }
                "<="
            },
            CompareOp::StrictlyLessThan => {
                proof {
                    reveal_strlit("<");
                }
                "<"
            },
            CompareOp::NotEqual => {
                proof {
                    reveal_strlit("!=");
                }
                "!="
            },
            CompareOp::Equal => {
                proof {
                    reveal_strlit("==");
                }
                "=="
            },
            CompareOp::GreaterThanEqual => {
                proof {
                    reveal_strlit(">=");
                }
                ">="
            },
            CompareOp::StrictlyGreaterThan => {
                proof {
                    reveal_strlit(">");
                }
                ">"
            },
            CompareOp::Compatible => {
                proof {
                    reveal_strlit("~=");
                }
                "~="
            },
        }
    }

    /// The operator's source spelling.
    pub fn to_string(&self) -> (r: String)
        ensures
            r@ == compare_op_text(*self),
    {
        String::from_str(self.as_str())
    }
}

/// Reads the operator token `s[lo..hi]`; `src` is the text that `s` holds.
pub(crate) fn compare_op_in(src: &str, s: &Vec<char>, lo: usize, hi: usize) -> (r: Result<
    CompareOp,
    RequirementError,
>)
    requires
        s@ == src@,
        lo <= hi <= s@.len(),
    ensures
        (match r {
            Ok(op) => compare_op_from(s@.subrange(lo as int, hi as int)) == Ok::<
                CompareOp,
                ErrorView,
            >(op),
            Err(e) => compare_op_from(s@.subrange(lo as int, hi as int)) == Err::<
                CompareOp,
                ErrorView,
            >(e@),
        }),
{
    let ghost tok = s@.subrange(lo as int, hi as int);
    proof {
        lemma_operator_spellings();
    }
    let n = hi - lo;
    if n == 1 {
        let a = s[lo];
        if a == '<' {
            assert(tok =~= seq!['<']);
            return Ok(CompareOp::StrictlyLessThan);
        } else if a == '>' {
            assert(tok =~= seq!['>']);
            return Ok(CompareOp::StrictlyGreaterThan);
        }
    } else if n == 2 {
        let a = s[lo];
        let b = s[lo + 1];
        if b == '=' {
            if a == '<' {
                assert(tok =~= seq!['<', '=']);
                return Ok(CompareOp::LessThanEqual);
            } else if a == '!' {
                assert(tok =~= seq!['!', '=']);
                return Ok(CompareOp::NotEqual);
            } else if a == '=' {
                assert(tok =~= seq!['=', '=']);
                return Ok(CompareOp::Equal);
            } else if a == '>' {
                assert(tok =~= seq!['>', '=']);
                return Ok(CompareOp::GreaterThanEqual);
            } else if a == '~' {
                assert(tok =~= seq!['~', '=']);
                return Ok(CompareOp::Compatible);
            }
        }
    } else if n == 3 && s[lo] == '=' && s[lo + 1] == '=' && s[lo + 2] == '=' {
        assert(tok =~= seq!['=', '=', '=']);
        return Err(RequirementError::UnsupportedOperator);
    }
    assert(tok.len() == n);
    assert(tok != seq!['<', '='] && tok != seq!['<'] && tok != seq!['!', '='] && tok != seq![
        '=',
        '=',
    ] && tok != seq!['>', '='] && tok != seq!['>'] && tok != seq!['~', '='] && tok != seq![
        '=',
        '=',
        '=',
    ]) by {
        if n == 1 || n == 2 || n == 3 {
            assert(tok[0] == s@[lo as int]);
            assert(n >= 2 ==> tok[1] == s@[lo + 1]);
            assert(n >= 3 ==> tok[2] == s@[lo + 2]);
        }
    }
    Err(RequirementError::UnrecognizedOperator { token: String::from_str(src.substring_char(lo, hi)) })
}

/// One version clause: an operator and an opaque version string.
#[derive(Debug, Clone, PartialEq, Eq)]
pub struct Specifier {
    pub op: CompareOp,
    pub value: String,
}

pub struct SpecifierView {
    pub op: CompareOp,
    pub value: Seq<char>,
}

impl View for Specifier {
    type V = SpecifierView;

    open spec fn view(&self) -> SpecifierView {
        SpecifierView { op: self.op, value: self.value@ }
    }
}

/// `{op}{value}`.
pub open spec fn specifier_text(sp: SpecifierView) -> Seq<char> {
    compare_op_text(sp.op) + sp.value
}

/// The clauses joined by ", ", in order.
pub open spec fn specifiers_text(v: Seq<SpecifierView>) -> Seq<char>
    decreases v.len(),
{
    if v.len() == 0 {
        Seq::empty()
    } else if v.len() == 1 {
        specifier_text(v[0])
    } else {
        specifiers_text(v.drop_last()) + seq![',', ' '] + specifier_text(v.last())
    }
}

impl Specifier {
    /// The clause as `{op}{value}`.
    pub fn to_string(&self) -> (r: String)
        ensures
            r@ == specifier_text(self@),
    {
        let mut out = String::from_str(self.op.as_str());
        out.append(self.value.as_str());
        out
    }
}

/// An ordered list of version clauses; the order is the source order.
#[derive(Debug, Clone, PartialEq, Eq, Default)]
pub struct Specifiers(pub Vec<Specifier>);

impl View for Specifiers {
    type V = Seq<SpecifierView>;

    open spec fn view(&self) -> Seq<SpecifierView> {
        self.0@.map_values(|sp: Specifier| sp@)
    }
}

impl Specifiers {
    /// The clauses joined by ", "; empty when there are none.
    pub fn to_string(&self) -> (r: String)
        ensures
            r@ == specifiers_text(self@),
    {
        let mut out = String::new();
        let n = self.0.len();
        let mut i: usize = 0;
        while i < n
            invariant
                n == self.0@.len(),
                i <= n,
                out@ == specifiers_text(self@.take(i as int)),
            decreases n - i,
        {
            let piece = self.0[i].to_string();
            proof {
                let t = self@.take(i as int + 1);
                assert(t.drop_last() =~= self@.take(i as int));
                assert(t.last() == self.0@[i as int]@);
            }
            if i > 0 {
                proof {
                    reveal_strlit(", ");
                }
                out.append(", ");
            }
            out.append(piece.as_str());
            assert(out@ =~= specifiers_text(self@.take(i as int + 1)));
            i = i + 1;
        }
        assert(self@.take(n as int) =~= self@);
        out
    }
}

} // verus!
