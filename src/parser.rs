use vstd::prelude::*;
use vstd::string::StringExecFns;

use crate::chars::{char_in, scan, skip_blanks, trim_bounds, trimmed, CharClass};
use crate::error::{ErrorView, Expected, RequirementError};
use crate::grammar::{
    and_rest, at_end, extra_items, grammar_error, kw_and, kw_in, kw_not, kw_or, or_rest, parse_and,
    parse_atom, parse_extras, parse_leaf, parse_marker_clause, parse_marker_op, parse_or,
    parse_specifier, parse_specifier_list, parse_value, specifier_items,
};
use crate::marker::{EnvMarkerExpr, MarkerView, Op, Value};
use crate::name::{normalize, PackageName};
use crate::requirement::ParseExtra;
use crate::specifier::{compare_op_in, Specifier, SpecifierView};

verus! {

/// `r` is what the grammar function gives: the same value and end position,
/// or the same error.
pub open spec fn outcome<T: View>(
    r: Result<(T, usize), RequirementError>,
    g: Result<(T::V, int), ErrorView>,
) -> bool {
    match r {
        Ok(p) => g == Ok::<(T::V, int), ErrorView>((p.0@, p.1 as int)),
        Err(e) => g == Err::<(T::V, int), ErrorView>(e@),
    }
}

/// On success the end position lies in `lo..=hi`.
pub open spec fn ends_within<T>(r: Result<(T, usize), RequirementError>, lo: int, hi: int) -> bool {
    match r {
        Ok(p) => lo <= p.1 <= hi,
        Err(_) => true,
    }
}

pub(crate) fn grammar_err(src: &str, p: usize, x: Expected) -> (e: RequirementError)
    ensures
        e@ == grammar_error(src@, p as int, x),
{
    RequirementError::Grammar { input: String::from_str(src), position: p, expected: x }
}

/// The text of `src[lo..hi]`, counted in chars.
pub(crate) fn text_of(src: &str, lo: usize, hi: usize) -> (r: String)
    requires
        lo <= hi <= src@.len(),
    ensures
        r@ == src@.subrange(lo as int, hi as int),
{
    String::from_str(src.substring_char(lo, hi))
}

/// Whether `s[lo..hi]` is `w`.
pub(crate) fn word_matches(s: &Vec<char>, lo: usize, hi: usize, w: &Vec<char>) -> (r: bool)
    requires
        lo <= hi <= s@.len(),
    ensures
        r == (s@.subrange(lo as int, hi as int) == w@),
{
    if hi - lo != w.len() {
        assert(s@.subrange(lo as int, hi as int).len() != w@.len());
        return false;
    }
    let mut k: usize = 0;
    while k < w.len()
        invariant
            lo <= hi <= s@.len(),
            hi - lo == w@.len(),
            k <= w@.len(),
            forall|m: int| 0 <= m < k ==> s@[lo + m] == w@[m],
        decreases w@.len() - k,
    {
        if s[lo + k] != w[k] {
            assert(s@.subrange(lo as int, hi as int)[k as int] != w@[k as int]);
            return false;
        }
        k = k + 1;
    }
    assert(s@.subrange(lo as int, hi as int) =~= w@);
    true
}

fn value_at(src: &str, s: &Vec<char>, i: usize) -> (r: Result<(Value, usize), RequirementError>)
    requires
        s@ == src@,
        i <= s@.len(),
    ensures
        outcome(r, parse_value(s@, i as int)),
        ends_within(r, i as int + 1, s@.len() as int),
{
    let p = skip_blanks(s, i);
    if p < s.len() && (s[p] == '"' || s[p] == '\'') {
        let k = if s[p] == '"' {
            CharClass::NotDoubleQuote
        } else {
            CharClass::NotSingleQuote
        };
        let e = scan(s, p + 1, k);
        if e < s.len() {
            Ok((Value::Literal(text_of(src, p + 1, e)), e + 1))
        } else {
            Err(grammar_err(src, e, Expected::CloseQuote))
        }
    } else {
        let e = scan(s, p, CharClass::VarChar);
        if p < e {
            Ok((Value::Variable(text_of(src, p, e)), e))
        } else {
            Err(grammar_err(src, p, Expected::Value))
        }
    }
}

fn marker_op_at(src: &str, s: &Vec<char>, i: usize) -> (r: Result<(Op, usize), RequirementError>)
    requires
        s@ == src@,
        i <= s@.len(),
    ensures
        (match r {
            Ok(p) => parse_marker_op(s@, i as int) == Ok::<(Op, int), ErrorView>((p.0, p.1 as int)),
            Err(e) => parse_marker_op(s@, i as int) == Err::<(Op, int), ErrorView>(e@),
        }),
        ends_within(r, i as int, s@.len() as int),
{
    let p = skip_blanks(s, i);
    let oe = scan(s, p, CharClass::OpChar);
    if p < oe {
        return match compare_op_in(src, s, p, oe) {
            Ok(c) => Ok((Op::Compare(c), oe)),
            Err(e) => Err(e),
        };
    }
    let we = scan(s, p, CharClass::VarChar);
    let kw_in_chars = vec!['i', 'n'];
    let kw_not_chars = vec!['n', 'o', 't'];
    assert(kw_in_chars@ =~= kw_in());
    assert(kw_not_chars@ =~= kw_not());
    if word_matches(s, p, we, &kw_in_chars) {
        Ok((Op::In, we))
    } else if word_matches(s, p, we, &kw_not_chars) {
        let after_not = skip_blanks(s, we);
        let after_in = scan(s, after_not, CharClass::VarChar);
        if word_matches(s, after_not, after_in, &kw_in_chars) {
            Ok((Op::NotIn, after_in))
        } else {
            Err(grammar_err(src, after_not, Expected::MarkerOperator))
        }
    } else {
        Err(grammar_err(src, p, Expected::MarkerOperator))
    }
}

fn leaf_at(src: &str, s: &Vec<char>, i: usize) -> (r: Result<(EnvMarkerExpr, usize), RequirementError>)
    requires
        s@ == src@,
        i <= s@.len(),
    ensures
        outcome(r, parse_leaf(s@, i as int)),
        ends_within(r, i as int + 1, s@.len() as int),
{
    let (lhs, j) = match value_at(src, s, i) {
        Ok(x) => x,
        Err(e) => return Err(e),
    };
    let (op, k) = match marker_op_at(src, s, j) {
        Ok(x) => x,
        Err(e) => return Err(e),
    };
    let (rhs, m) = match value_at(src, s, k) {
        Ok(x) => x,
        Err(e) => return Err(e),
    };
    Ok((EnvMarkerExpr::Operator { op, lhs, rhs }, m))
}

fn or_at(src: &str, s: &Vec<char>, i: usize) -> (r: Result<(EnvMarkerExpr, usize), RequirementError>)
    requires
        s@ == src@,
        i <= s@.len(),
    ensures
        outcome(r, parse_or(s@, i as int)),
        ends_within(r, i as int + 1, s@.len() as int),
    decreases s@.len() - i, 2nat,
{
    match and_at(src, s, i) {
        Err(e) => Err(e),
        Ok((l, j)) => or_rest_at(src, s, j, l),
    }
}

fn or_rest_at(src: &str, s: &Vec<char>, i: usize, acc: EnvMarkerExpr) -> (r: Result<
    (EnvMarkerExpr, usize),
    RequirementError,
>)
    requires
        s@ == src@,
        i <= s@.len(),
    ensures
        outcome(r, or_rest(s@, i as int, acc@)),
        ends_within(r, i as int, s@.len() as int),
    decreases s@.len() - i, 3nat,
{
    let p = skip_blanks(s, i);
    let we = scan(s, p, CharClass::VarChar);
    let kw = vec!['o', 'r'];
    assert(kw@ =~= kw_or());
    if p < s.len() && word_matches(s, p, we, &kw) {
        assert(we == p + 2) by {
            assert(s@.subrange(p as int, we as int).len() == 2);
        }
        match and_at(src, s, we) {
            Err(e) => Err(e),
            Ok((r, j)) => or_rest_at(src, s, j, EnvMarkerExpr::Or(Box::new(acc), Box::new(r))),
        }
    } else {
        Ok((acc, i))
    }
}

fn and_at(src: &str, s: &Vec<char>, i: usize) -> (r: Result<(EnvMarkerExpr, usize), RequirementError>)
    requires
        s@ == src@,
        i <= s@.len(),
    ensures
        outcome(r, parse_and(s@, i as int)),
        ends_within(r, i as int + 1, s@.len() as int),
    decreases s@.len() - i, 1nat,
{
    match atom_at(src, s, i) {
        Err(e) => Err(e),
        Ok((l, j)) => and_rest_at(src, s, j, l),
    }
}

fn and_rest_at(src: &str, s: &Vec<char>, i: usize, acc: EnvMarkerExpr) -> (r: Result<
    (EnvMarkerExpr, usize),
    RequirementError,
>)
    requires
        s@ == src@,
        i <= s@.len(),
    ensures
        outcome(r, and_rest(s@, i as int, acc@)),
        ends_within(r, i as int, s@.len() as int),
    decreases s@.len() - i, 1nat,
{
    let p = skip_blanks(s, i);
    let we = scan(s, p, CharClass::VarChar);
    let kw = vec!['a', 'n', 'd'];
    assert(kw@ =~= kw_and());
    if p < s.len() && word_matches(s, p, we, &kw) {
        assert(we == p + 3) by {
            assert(s@.subrange(p as int, we as int).len() == 3);
        }
        match atom_at(src, s, we) {
            Err(e) => Err(e),
            Ok((r, j)) => and_rest_at(src, s, j, EnvMarkerExpr::And(Box::new(acc), Box::new(r))),
        }
    } else {
        Ok((acc, i))
    }
}

fn atom_at(src: &str, s: &Vec<char>, i: usize) -> (r: Result<(EnvMarkerExpr, usize), RequirementError>)
    requires
        s@ == src@,
        i <= s@.len(),
    ensures
        outcome(r, parse_atom(s@, i as int)),
        ends_within(r, i as int + 1, s@.len() as int),
    decreases s@.len() - i, 0nat,
{
    let p = skip_blanks(s, i);
    if p < s.len() && s[p] == '(' {
        match or_at(src, s, p + 1) {
            Err(e) => Err(e),
            Ok((m, j)) => {
                let q = skip_blanks(s, j);
                if q < s.len() && s[q] == ')' {
                    Ok((m, q + 1))
                } else {
                    Err(grammar_err(src, q, Expected::CloseParen))
                }
            },
        }
    } else {
        leaf_at(src, s, p)
    }
}

/// The extras of a requirement, when a '[' stands at `i`.
pub(crate) fn extras_at(src: &str, s: &Vec<char>, i: usize, extra: ParseExtra) -> (r: Result<
    (Vec<PackageName>, usize),
    RequirementError,
>)
    requires
        s@ == src@,
        i <= s@.len(),
    ensures
        (match r {
            Ok(p) => parse_extras(s@, i as int, extra) == Ok::<(Seq<Seq<char>>, int), ErrorView>(
                (p.0@.map_values(|n: PackageName| n@), p.1 as int),
            ),
            Err(e) => parse_extras(s@, i as int, extra) == Err::<(Seq<Seq<char>>, int), ErrorView>(
                e@,
            ),
        }),
        ends_within(r, i as int, s@.len() as int),
{
    if !(i < s.len() && s[i] == '[') {
        assert(Seq::<PackageName>::empty().map_values(|n: PackageName| n@) =~= Seq::empty());
        return Ok((Vec::new(), i));
    }
    if let ParseExtra::NotAllowed = extra {
        return Err(grammar_err(src, i, Expected::NoExtras));
    }
    let mut acc: Vec<PackageName> = Vec::new();
    let mut k = i + 1;
    assert(acc@.map_values(|n: PackageName| n@) =~= Seq::<Seq<char>>::empty());
    loop
        invariant
            s@ == src@,
            i < k <= s@.len(),
            parse_extras(s@, i as int, extra) == extra_items(
                s@,
                k as int,
                acc@.map_values(|n: PackageName| n@),
            ),
        decreases s@.len() - k,
    {
        let ghost old_acc = acc@;
        let e = scan(s, k, CharClass::ExtraBody);
        if e >= s.len() {
            return Err(grammar_err(src, e, Expected::CloseBracket));
        }
        let (a, b) = trim_bounds(s, k, e);
        let text = text_of(src, a, b);
        assert(text@ == trimmed(s@, k as int, e as int));
        let name = match normalize(text.as_str()) {
            Ok(n) => n,
            Err(err) => return Err(err),
        };
        acc.push(name);
        assert(acc@.map_values(|n: PackageName| n@) =~= old_acc.map_values(|n: PackageName| n@).push(
            text@,
        ));
        if s[e] == ',' {
            k = e + 1;
        } else {
            return Ok((acc, e + 1));
        }
    }
}

fn specifier_at(src: &str, s: &Vec<char>, i: usize) -> (r: Result<(Specifier, usize), RequirementError>)
    requires
        s@ == src@,
        i <= s@.len(),
    ensures
        outcome(r, parse_specifier(s@, i as int)),
        ends_within(r, i as int + 1, s@.len() as int),
{
    let p = skip_blanks(s, i);
    let oe = scan(s, p, CharClass::OpChar);
    if oe <= p {
        return Err(grammar_err(src, p, Expected::Operator));
    }
    let op = match compare_op_in(src, s, p, oe) {
        Ok(op) => op,
        Err(e) => return Err(e),
    };
    let v = skip_blanks(s, oe);
    let ve = scan(s, v, CharClass::VersionChar);
    if v < ve {
        Ok((Specifier { op, value: text_of(src, v, ve) }, ve))
    } else {
        Err(grammar_err(src, v, Expected::Version))
    }
}

/// The version clauses at `i`, if an operator char comes first.
pub(crate) fn specifier_list_at(src: &str, s: &Vec<char>, i: usize) -> (r: Result<
    (Vec<Specifier>, usize),
    RequirementError,
>)
    requires
        s@ == src@,
        i <= s@.len(),
    ensures
        (match r {
            Ok(p) => parse_specifier_list(s@, i as int) == Ok::<
                (Seq<SpecifierView>, int),
                ErrorView,
            >((p.0@.map_values(|sp: Specifier| sp@), p.1 as int)),
            Err(e) => parse_specifier_list(s@, i as int) == Err::<
                (Seq<SpecifierView>, int),
                ErrorView,
            >(e@),
        }),
        ends_within(r, i as int, s@.len() as int),
{
    let p = skip_blanks(s, i);
    if !(p < s.len() && char_in(s[p], CharClass::OpChar)) {
        assert(Seq::<Specifier>::empty().map_values(|sp: Specifier| sp@) =~= Seq::empty());
        return Ok((Vec::new(), i));
    }
    let mut acc: Vec<Specifier> = Vec::new();
    let mut k = p;
    assert(acc@.map_values(|sp: Specifier| sp@) =~= Seq::<SpecifierView>::empty());
    loop
        invariant
            s@ == src@,
            i <= k <= s@.len(),
            parse_specifier_list(s@, i as int) == specifier_items(
                s@,
                k as int,
                acc@.map_values(|sp: Specifier| sp@),
            ),
        decreases s@.len() - k,
    {
        let ghost old_acc = acc@;
        let (sp, j) = match specifier_at(src, s, k) {
            Ok(x) => x,
            Err(e) => return Err(e),
        };
        let ghost spv = sp@;
        acc.push(sp);
        assert(acc@.map_values(|sp: Specifier| sp@) =~= old_acc.map_values(|sp: Specifier| sp@).push(
            spv,
        ));
        let q = skip_blanks(s, j);
        if q < s.len() && s[q] == ',' {
            k = q + 1;
        } else {
            return Ok((acc, j));
        }
    }
}

/// `; marker` at `i`, if a ';' comes first.
pub(crate) fn marker_clause_at(src: &str, s: &Vec<char>, i: usize) -> (r: Result<
    (Option<EnvMarkerExpr>, usize),
    RequirementError,
>)
    requires
        s@ == src@,
        i <= s@.len(),
    ensures
        (match r {
            Ok(p) => parse_marker_clause(s@, i as int) == Ok::<(Option<MarkerView>, int), ErrorView>(
                (
                    match p.0 {
                        Some(m) => Some(m@),
                        None => None,
                    },
                    p.1 as int,
                ),
            ),
            Err(e) => parse_marker_clause(s@, i as int) == Err::<(Option<MarkerView>, int), ErrorView>(
                e@,
            ),
        }),
        ends_within(r, i as int, s@.len() as int),
{
    let p = skip_blanks(s, i);
    if p < s.len() && s[p] == ';' {
        match or_at(src, s, p + 1) {
            Err(e) => Err(e),
            Ok((m, j)) => Ok((Some(m), j)),
        }
    } else {
        Ok((None, i))
    }
}

/// Fails unless only blanks follow `i`.
pub(crate) fn expect_end(src: &str, s: &Vec<char>, i: usize) -> (r: Result<(), RequirementError>)
    requires
        s@ == src@,
        i <= s@.len(),
    ensures
        (match r {
            Ok(_) => at_end(s@, i as int) == Ok::<(), ErrorView>(()),
            Err(e) => at_end(s@, i as int) == Err::<(), ErrorView>(e@),
        }),
{
    let p = skip_blanks(s, i);
    if p == s.len() {
        Ok(())
    } else {
        Err(grammar_err(src, p, Expected::EndOfInput))
    }
}

/// A whole marker expression from position 0.
pub(crate) fn marker_from_start(src: &str, s: &Vec<char>) -> (r: Result<
    (EnvMarkerExpr, usize),
    RequirementError,
>)
    requires
        s@ == src@,
    ensures
        outcome(r, parse_or(s@, 0)),
        ends_within(r, 0, s@.len() as int),
{
    or_at(src, s, 0)
}

} // verus!
