//! The grammar of requirement strings, as spec functions over chars.
//!
//! Every function reads from position `i` of the whole input `s` and returns
//! what it read with the position after it, or the error at the first
//! violation. Blanks before a token are skipped by the function that reads
//! the token.
use vstd::prelude::*;

use crate::chars::{lemma_span_end_ge, skip_ws, span_end, trimmed, is_op_char, CharClass};
use crate::error::{ErrorView, Expected};
use crate::marker::{MarkerView, Op, ValueView};
use crate::name::valid_name;
use crate::requirement::{ParseExtra, RequirementView};
use crate::specifier::{compare_op_from, SpecifierView};

verus! {

pub open spec fn grammar_error(s: Seq<char>, p: int, x: Expected) -> ErrorView {
    ErrorView::Grammar { input: s, position: p, expected: x }
}

pub open spec fn kw_and() -> Seq<char> {
    seq!['a', 'n', 'd']
}

pub open spec fn kw_or() -> Seq<char> {
    seq!['o', 'r']
}

pub open spec fn kw_in() -> Seq<char> {
    seq!['i', 'n']
}

pub open spec fn kw_not() -> Seq<char> {
    seq!['n', 'o', 't']
}

/// The run of variable chars that starts at `p`.
pub open spec fn word_at(s: Seq<char>, p: int) -> Seq<char> {
    s.subrange(p, span_end(s, p, CharClass::VarChar))
}

/// A quoted literal or a variable name.
pub open spec fn parse_value(s: Seq<char>, i: int) -> Result<(ValueView, int), ErrorView> {
    let p = skip_ws(s, i);
    if 0 <= p < s.len() && (s[p] == '"' || s[p] == '\'') {
        let k = if s[p] == '"' {
            CharClass::NotDoubleQuote
        } else {
            CharClass::NotSingleQuote
        };
        let e = span_end(s, p + 1, k);
        if e < s.len() {
            Ok((ValueView::Literal(s.subrange(p + 1, e)), e + 1))
        } else {
            Err(grammar_error(s, e, Expected::CloseQuote))
        }
    } else {
        let e = span_end(s, p, CharClass::VarChar);
        if p < e {
            Ok((ValueView::Variable(s.subrange(p, e)), e))
        } else {
            Err(grammar_error(s, p, Expected::Value))
        }
    }
}

/// A comparison operator, `in`, or `not in`.
pub open spec fn parse_marker_op(s: Seq<char>, i: int) -> Result<(Op, int), ErrorView> {
    let p = skip_ws(s, i);
    let oe = span_end(s, p, CharClass::OpChar);
    if p < oe {
        match compare_op_from(s.subrange(p, oe)) {
            Ok(c) => Ok((Op::Compare(c), oe)),
            Err(e) => Err(e),
        }
    } else if word_at(s, p) == kw_in() {
        Ok((Op::In, span_end(s, p, CharClass::VarChar)))
    } else if word_at(s, p) == kw_not() {
        let after_not = skip_ws(s, span_end(s, p, CharClass::VarChar));
        if word_at(s, after_not) == kw_in() {
            Ok((Op::NotIn, span_end(s, after_not, CharClass::VarChar)))
        } else {
            Err(grammar_error(s, after_not, Expected::MarkerOperator))
        }
    } else {
        Err(grammar_error(s, p, Expected::MarkerOperator))
    }
}

/// `value op value`.
pub open spec fn parse_leaf(s: Seq<char>, i: int) -> Result<(MarkerView, int), ErrorView> {
    match parse_value(s, i) {
        Err(e) => Err(e),
        Ok((lhs, j)) => match parse_marker_op(s, j) {
            Err(e) => Err(e),
            Ok((op, k)) => match parse_value(s, k) {
                Err(e) => Err(e),
                Ok((rhs, m)) => Ok((MarkerView::Operator { op, lhs, rhs }, m)),
            },
        },
    }
}

/// `marker_and ('or' marker_and)*`, grouped to the left.
///
/// Every successful reading ends past where it started; the checks of that
/// here and in the functions below only make it visible to the termination
/// measure, and never fail.
pub open spec fn parse_or(s: Seq<char>, i: int) -> Result<(MarkerView, int), ErrorView>
    decreases s.len() - i, 2nat,
{
    match parse_and(s, i) {
        Err(e) => Err(e),
        Ok((l, j)) => if i < j <= s.len() {
            or_rest(s, j, l)
        } else {
            Err(grammar_error(s, i, Expected::Value))
        },
    }
}

/// The `('or' marker_and)*` that follows `acc`.
pub open spec fn or_rest(s: Seq<char>, i: int, acc: MarkerView) -> Result<
    (MarkerView, int),
    ErrorView,
>
    decreases s.len() - i, 3nat,
{
    let p = skip_ws(s, i);
    let we = span_end(s, p, CharClass::VarChar);
    if p < s.len() && word_at(s, p) == kw_or() {
        proof {
            lemma_span_end_ge(s, i, CharClass::Space);
            lemma_span_end_ge(s, p, CharClass::VarChar);
        }
        match parse_and(s, we) {
            Err(e) => Err(e),
            Ok((r, j)) => if we < j <= s.len() {
                or_rest(s, j, MarkerView::Or(Box::new(acc), Box::new(r)))
            } else {
                Err(grammar_error(s, we, Expected::Value))
            },
        }
    } else {
        Ok((acc, i))
    }
}

/// `marker_atom ('and' marker_atom)*`, grouped to the left.
pub open spec fn parse_and(s: Seq<char>, i: int) -> Result<(MarkerView, int), ErrorView>
    decreases s.len() - i, 1nat,
{
    match parse_atom(s, i) {
        Err(e) => Err(e),
        Ok((l, j)) => if i < j <= s.len() {
            and_rest(s, j, l)
        } else {
            Err(grammar_error(s, i, Expected::Value))
        },
    }
}

/// The `('and' marker_atom)*` that follows `acc`.
pub open spec fn and_rest(s: Seq<char>, i: int, acc: MarkerView) -> Result<
    (MarkerView, int),
    ErrorView,
>
    decreases s.len() - i, 1nat,
{
    let p = skip_ws(s, i);
    let we = span_end(s, p, CharClass::VarChar);
    if p < s.len() && word_at(s, p) == kw_and() {
        proof {
            lemma_span_end_ge(s, i, CharClass::Space);
            lemma_span_end_ge(s, p, CharClass::VarChar);
        }
        match parse_atom(s, we) {
            Err(e) => Err(e),
            Ok((r, j)) => if we < j <= s.len() {
                and_rest(s, j, MarkerView::And(Box::new(acc), Box::new(r)))
            } else {
                Err(grammar_error(s, we, Expected::Value))
            },
        }
    } else {
        Ok((acc, i))
    }
}

/// `'(' marker_or ')'` or a comparison.
pub open spec fn parse_atom(s: Seq<char>, i: int) -> Result<(MarkerView, int), ErrorView>
    decreases s.len() - i, 0nat,
{
    let p = skip_ws(s, i);
    if 0 <= p < s.len() && s[p] == '(' {
        proof {
            lemma_span_end_ge(s, i, CharClass::Space);
        }
        match parse_or(s, p + 1) {
            Err(e) => Err(e),
            Ok((m, j)) => {
                let q = skip_ws(s, j);
                if 0 <= q < s.len() && s[q] == ')' {
                    Ok((m, q + 1))
                } else {
                    Err(grammar_error(s, q, Expected::CloseParen))
                }
            },
        }
    } else {
        parse_leaf(s, p)
    }
}

/// `[name, ...]` at `i`, when there is a '[' there.
pub open spec fn parse_extras(s: Seq<char>, i: int, extra: ParseExtra) -> Result<
    (Seq<Seq<char>>, int),
    ErrorView,
> {
    if 0 <= i < s.len() && s[i] == '[' {
        if extra == ParseExtra::NotAllowed {
            Err(grammar_error(s, i, Expected::NoExtras))
        } else {
            extra_items(s, i + 1, Seq::empty())
        }
    } else {
        Ok((Seq::empty(), i))
    }
}

/// The extras after `acc`, up to and including the closing ']'.
pub open spec fn extra_items(s: Seq<char>, i: int, acc: Seq<Seq<char>>) -> Result<
    (Seq<Seq<char>>, int),
    ErrorView,
>
    decreases s.len() - i,
{
    let e = span_end(s, i, CharClass::ExtraBody);
    let name = trimmed(s, i, e);
    if e >= s.len() {
        Err(grammar_error(s, e, Expected::CloseBracket))
    } else if !valid_name(name) {
        Err(ErrorView::InvalidName(name))
    } else if s[e] == ',' {
        proof {
            lemma_span_end_ge(s, i, CharClass::ExtraBody);
        }
        extra_items(s, e + 1, acc.push(name))
    } else {
        Ok((acc.push(name), e + 1))
    }
}

/// One `op version` clause.
pub open spec fn parse_specifier(s: Seq<char>, i: int) -> Result<(SpecifierView, int), ErrorView> {
    let p = skip_ws(s, i);
    let oe = span_end(s, p, CharClass::OpChar);
    if oe <= p {
        Err(grammar_error(s, p, Expected::Operator))
    } else {
        match compare_op_from(s.subrange(p, oe)) {
            Err(e) => Err(e),
            Ok(op) => {
                let v = skip_ws(s, oe);
                let ve = span_end(s, v, CharClass::VersionChar);
                if v < ve {
                    Ok((SpecifierView { op, value: s.subrange(v, ve) }, ve))
                } else {
                    Err(grammar_error(s, v, Expected::Version))
                }
            },
        }
    }
}

pub proof fn lemma_specifier_advances(s: Seq<char>, i: int)
    ensures
        parse_specifier(s, i) is Ok ==> i < parse_specifier(s, i)->Ok_0.1,
{
    let p = skip_ws(s, i);
    let oe = span_end(s, p, CharClass::OpChar);
    let v = skip_ws(s, oe);
    lemma_span_end_ge(s, i, CharClass::Space);
    lemma_span_end_ge(s, p, CharClass::OpChar);
    lemma_span_end_ge(s, oe, CharClass::Space);
    lemma_span_end_ge(s, v, CharClass::VersionChar);
}

/// The clauses after `acc`, separated by ','.
pub open spec fn specifier_items(s: Seq<char>, i: int, acc: Seq<SpecifierView>) -> Result<
    (Seq<SpecifierView>, int),
    ErrorView,
>
    decreases s.len() - i,
{
    match parse_specifier(s, i) {
        Err(e) => Err(e),
        Ok((sp, j)) => {
            let q = skip_ws(s, j);
            if q < s.len() && s[q] == ',' {
                proof {
                    lemma_specifier_advances(s, i);
                    lemma_span_end_ge(s, j, CharClass::Space);
                }
                specifier_items(s, q + 1, acc.push(sp))
            } else {
                Ok((acc.push(sp), j))
            }
        },
    }
}

/// The version clauses at `i`, if an operator char comes first.
pub open spec fn parse_specifier_list(s: Seq<char>, i: int) -> Result<
    (Seq<SpecifierView>, int),
    ErrorView,
> {
    let p = skip_ws(s, i);
    if 0 <= p < s.len() && is_op_char(s[p]) {
        specifier_items(s, p, Seq::empty())
    } else {
        Ok((Seq::empty(), i))
    }
}

/// `; marker` at `i`, if a ';' comes first.
pub open spec fn parse_marker_clause(s: Seq<char>, i: int) -> Result<
    (Option<MarkerView>, int),
    ErrorView,
> {
    let p = skip_ws(s, i);
    if 0 <= p < s.len() && s[p] == ';' {
        match parse_or(s, p + 1) {
            Err(e) => Err(e),
            Ok((m, j)) => Ok((Some(m), j)),
        }
    } else {
        Ok((None, i))
    }
}

/// Nothing but blanks from `i` on.
pub open spec fn at_end(s: Seq<char>, i: int) -> Result<(), ErrorView> {
    let p = skip_ws(s, i);
    if p == s.len() {
        Ok(())
    } else {
        Err(grammar_error(s, p, Expected::EndOfInput))
    }
}

/// The name of a requirement: all up to the first '[', ';' or operator
/// char, without blanks at either end.
pub open spec fn name_part(s: Seq<char>) -> Seq<char> {
    trimmed(s, 0, span_end(s, 0, CharClass::NameBody))
}

/// `name extras? specifiers? (';' marker)?`
pub open spec fn parse_requirement(s: Seq<char>, extra: ParseExtra) -> Result<
    RequirementView,
    ErrorView,
> {
    let ne = span_end(s, 0, CharClass::NameBody);
    let name = name_part(s);
    if !valid_name(name) {
        Err(ErrorView::InvalidName(name))
    } else {
        match parse_extras(s, ne, extra) {
            Err(e) => Err(e),
            Ok((extras, i1)) => match parse_specifier_list(s, i1) {
                Err(e) => Err(e),
                Ok((specifiers, i2)) => match parse_marker_clause(s, i2) {
                    Err(e) => Err(e),
                    Ok((marker, i3)) => match at_end(s, i3) {
                        Err(e) => Err(e),
                        Ok(_) => Ok(RequirementView { name, extras, specifiers, marker }),
                    },
                },
            },
        }
    }
}

/// Where extras are not allowed, what is read has none: a '[' after the
/// name fails the reading itself.
pub proof fn lemma_no_extras_when_not_allowed(s: Seq<char>)
    ensures
        parse_requirement(s, ParseExtra::NotAllowed) is Ok ==> parse_requirement(
            s,
            ParseExtra::NotAllowed,
        )->Ok_0.extras.len() == 0,
        parse_requirement(s, ParseExtra::NotAllowed) is Ok ==> parse_requirement(
            s,
            ParseExtra::Allowed,
        ) == parse_requirement(s, ParseExtra::NotAllowed),
{
}

/// A marker expression on its own.
pub open spec fn parse_marker(s: Seq<char>) -> Result<MarkerView, ErrorView> {
    match parse_or(s, 0) {
        Err(e) => Err(e),
        Ok((m, j)) => match at_end(s, j) {
            Err(e) => Err(e),
            Ok(_) => Ok(m),
        },
    }
}

/// A list of version clauses on its own; it may be empty.
pub open spec fn parse_specifiers(s: Seq<char>) -> Result<Seq<SpecifierView>, ErrorView> {
    match parse_specifier_list(s, 0) {
        Err(e) => Err(e),
        Ok((v, j)) => match at_end(s, j) {
            Err(e) => Err(e),
            Ok(_) => Ok(v),
        },
    }
}

} // verus!
