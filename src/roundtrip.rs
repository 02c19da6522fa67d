use vstd::prelude::*;

use crate::chars::{
    in_class, is_op_char, lemma_span_end, lemma_span_end_at, skip_ws, span_end, trim_end,
    trim_start, trimmed, CharClass,
};
use crate::error::ErrorView;
use crate::grammar::{
    and_rest, extra_items, kw_and, kw_in, kw_not, kw_or, name_part, or_rest, parse_and,
    parse_atom, parse_extras, parse_leaf, parse_marker, parse_marker_clause, parse_marker_op,
    parse_or, parse_requirement, parse_specifier, parse_specifier_list, parse_value,
    specifier_items, word_at,
};
use crate::marker::{
    and_sep, group_text, leaf_text, marker_text, op_text, or_sep, quote_for, value_text, wf_marker,
    wf_value, MarkerView, Op, ValueView,
};
use crate::name::{is_name_char, valid_name};
use crate::requirement::{
    extras_list_text, extras_text, marker_part, requirement_text, specifiers_part, wf_requirement,
    wf_specifier, ParseExtra, RequirementView,
};
use crate::specifier::{
    compare_op_text, lemma_operator_bijection, specifier_text, specifiers_text, CompareOp,
    SpecifierView,
};

verus! {

/// `t` stands in `s` at position `p`.
pub open spec fn occurs(s: Seq<char>, p: int, t: Seq<char>) -> bool {
    0 <= p && p + t.len() <= s.len() && s.subrange(p, p + t.len()) == t
}

proof fn lemma_occurs_split(s: Seq<char>, p: int, a: Seq<char>, b: Seq<char>)
    requires
        occurs(s, p, a + b),
    ensures
        occurs(s, p, a),
        occurs(s, p + a.len(), b),
{
    let t = a + b;
    assert forall|m: int| 0 <= m < a.len() implies s.subrange(p, p + a.len())[m] == a[m] by {
        assert(s[p + m] == s.subrange(p, p + t.len())[m]);
        assert(t[m] == a[m]);
    }
    assert(s.subrange(p, p + a.len()) =~= a);
    assert forall|m: int| 0 <= m < b.len() implies s.subrange(
        p + a.len(),
        p + a.len() + b.len(),
    )[m] == b[m] by {
        assert(s[p + a.len() + m] == s.subrange(p, p + t.len())[a.len() + m]);
        assert(t[a.len() + m] == b[m]);
    }
    assert(s.subrange(p + a.len(), p + a.len() + b.len()) =~= b);
}

proof fn lemma_occurs_char(s: Seq<char>, p: int, t: Seq<char>, m: int)
    requires
        occurs(s, p, t),
        0 <= m < t.len(),
    ensures
        s[p + m] == t[m],
{
    assert(s.subrange(p, p + t.len())[m] == s[p + m]);
}

/// Every char of `t` is of class `k`, and the char after it (if any) is not.
proof fn lemma_span_over(s: Seq<char>, p: int, t: Seq<char>, k: CharClass)
    requires
        occurs(s, p, t),
        forall|m: int| 0 <= m < t.len() ==> in_class(#[trigger] t[m], k),
        p + t.len() == s.len() || !in_class(s[p + t.len()], k),
    ensures
        span_end(s, p, k) == p + t.len(),
{
    assert forall|m: int| p <= m < p + t.len() implies in_class(#[trigger] s[m], k) by {
        lemma_occurs_char(s, p, t, m - p);
    }
    lemma_span_end_at(s, p, p + t.len(), k);
}

proof fn lemma_no_blank(s: Seq<char>, p: int)
    requires
        0 <= p,
        p == s.len() || (p < s.len() && !in_class(s[p], CharClass::Space)),
    ensures
        skip_ws(s, p) == p,
{
}

proof fn lemma_one_blank(s: Seq<char>, p: int)
    requires
        0 <= p < s.len(),
        s[p] == ' ',
        p + 1 == s.len() || (p + 1 < s.len() && !in_class(s[p + 1], CharClass::Space)),
    ensures
        skip_ws(s, p) == p + 1,
{
    lemma_no_blank(s, p + 1);
}

/// The first char of a value's text: a variable char or a quote.
proof fn lemma_value_first(v: ValueView)
    requires
        wf_value(v),
    ensures
        value_text(v).len() > 0,
        in_class(value_text(v)[0], CharClass::VarChar) || value_text(v)[0] == '"'
            || value_text(v)[0] == '\'',
{
    match v {
        ValueView::Variable(n) => {
            assert(in_class(n[0], CharClass::VarChar));
        },
        ValueView::Literal(l) => {},
    }
}

/// A word of variable chars at `p`, ended by a char that is no variable char.
proof fn lemma_word(s: Seq<char>, p: int, w: Seq<char>)
    requires
        occurs(s, p, w),
        forall|m: int| 0 <= m < w.len() ==> in_class(#[trigger] w[m], CharClass::VarChar),
        p + w.len() == s.len() || !in_class(s[p + w.len()], CharClass::VarChar),
    ensures
        span_end(s, p, CharClass::VarChar) == p + w.len(),
        word_at(s, p) == w,
{
    lemma_span_over(s, p, w, CharClass::VarChar);
}

proof fn lemma_value_reads_back(s: Seq<char>, i: int, p: int, v: ValueView)
    requires
        wf_value(v),
        0 <= i <= p,
        skip_ws(s, i) == p,
        occurs(s, p, value_text(v)),
        p + value_text(v).len() == s.len() || !in_class(
            s[p + value_text(v).len()],
            CharClass::VarChar,
        ),
    ensures
        parse_value(s, i) == Ok::<(ValueView, int), ErrorView>((v, p + value_text(v).len())),
{
    lemma_value_first(v);
    lemma_occurs_char(s, p, value_text(v), 0);
    match v {
        ValueView::Variable(n) => {
            lemma_word(s, p, n);
        },
        ValueView::Literal(l) => {
            let q = quote_for(l);
            let k = if q == '"' {
                CharClass::NotDoubleQuote
            } else {
                CharClass::NotSingleQuote
            };
            lemma_occurs_split(s, p, seq![q] + l, seq![q]);
            lemma_occurs_split(s, p, seq![q], l);
            lemma_occurs_char(s, p + 1 + l.len(), seq![q], 0);
            assert forall|m: int| 0 <= m < l.len() implies in_class(#[trigger] l[m], k) by {
                if l[m] == q {
                    assert(l.contains(q));
                }
            }
            lemma_span_over(s, p + 1, l, k);
        },
    }
}

proof fn lemma_op_reads_back(s: Seq<char>, j: int, op: Op)
    requires
        occurs(s, j, seq![' '] + op_text(op) + seq![' ']),
    ensures
        parse_marker_op(s, j) == Ok::<(Op, int), ErrorView>((op, j + 1 + op_text(op).len())),
{
    let t = op_text(op);
    lemma_occurs_split(s, j, seq![' '] + t, seq![' ']);
    lemma_occurs_split(s, j, seq![' '], t);
    lemma_occurs_char(s, j, seq![' '], 0);
    lemma_occurs_char(s, j + 1 + t.len(), seq![' '], 0);
    lemma_occurs_char(s, j + 1, t, 0);
    lemma_one_blank(s, j);
    let p = j + 1;
    match op {
        Op::Compare(c) => {
            lemma_span_over(s, p, t, CharClass::OpChar);
            lemma_operator_bijection(c, t);
        },
        Op::In => {
            assert(!is_op_char(s[p]));
            lemma_word(s, p, kw_in());
        },
        Op::NotIn => {
            assert(!is_op_char(s[p]));
            assert(seq!['n', 'o', 't', ' ', 'i', 'n'] =~= seq!['n', 'o', 't'] + (seq![' '] + seq![
                'i',
                'n',
            ]));
            lemma_occurs_split(s, p, seq!['n', 'o', 't'], seq![' '] + seq!['i', 'n']);
            lemma_occurs_split(s, p + 3, seq![' '], seq!['i', 'n']);
            lemma_occurs_char(s, p + 3, seq![' '], 0);
            lemma_word(s, p, kw_not());
            assert(kw_not() != kw_in());
            lemma_occurs_char(s, p + 4, seq!['i', 'n'], 0);
            lemma_one_blank(s, p + 3);
            lemma_word(s, p + 4, kw_in());
        },
    }
}

proof fn lemma_leaf_reads_back(s: Seq<char>, i: int, p: int, op: Op, lhs: ValueView, rhs: ValueView)
    requires
        wf_value(lhs),
        wf_value(rhs),
        0 <= i <= p,
        skip_ws(s, i) == p,
        occurs(s, p, leaf_text(op, lhs, rhs)),
        p + leaf_text(op, lhs, rhs).len() == s.len() || !in_class(
            s[p + leaf_text(op, lhs, rhs).len()],
            CharClass::VarChar,
        ),
    ensures
        parse_leaf(s, i) == Ok::<(MarkerView, int), ErrorView>(
            (MarkerView::Operator { op, lhs, rhs }, p + leaf_text(op, lhs, rhs).len()),
        ),
{
    let a = value_text(lhs);
    let t = op_text(op);
    let b = value_text(rhs);
    let mid = seq![' '] + t + seq![' '];
    assert(leaf_text(op, lhs, rhs) =~= (a + mid) + b);
    lemma_occurs_split(s, p, a + mid, b);
    lemma_occurs_split(s, p, a, mid);
    lemma_occurs_char(s, p + a.len(), mid, 0);
    lemma_value_reads_back(s, i, p, lhs);
    lemma_op_reads_back(s, p + a.len(), op);
    let j2 = p + a.len() + 1 + t.len();
    lemma_occurs_char(s, p + a.len(), mid, 1 + t.len() as int);
    lemma_value_first(rhs);
    lemma_occurs_char(s, j2 + 1, b, 0);
    lemma_one_blank(s, j2);
    lemma_value_reads_back(s, j2, j2 + 1, rhs);
}

/// After a marker that ends the input or a group, neither `and` nor `or` follows.
proof fn lemma_rest_stops(s: Seq<char>, k: int, acc: MarkerView)
    requires
        0 <= k <= s.len(),
        k == s.len() || s[k] == ')',
    ensures
        and_rest(s, k, acc) == Ok::<(MarkerView, int), ErrorView>((acc, k)),
        or_rest(s, k, acc) == Ok::<(MarkerView, int), ErrorView>((acc, k)),
{
    lemma_no_blank(s, k);
    if k < s.len() {
        assert(span_end(s, k, CharClass::VarChar) == k);
        assert(word_at(s, k).len() == 0);
    }
}

/// The first char of a marker's text, nested or not.
proof fn lemma_marker_first(e: MarkerView)
    requires
        wf_marker(e),
    ensures
        group_text(e).len() > 0,
        marker_text(e).len() > 0,
        group_text(e)[0] == '(' || in_class(group_text(e)[0], CharClass::VarChar)
            || group_text(e)[0] == '"' || group_text(e)[0] == '\'',
        marker_text(e)[0] == '(' || in_class(marker_text(e)[0], CharClass::VarChar)
            || marker_text(e)[0] == '"' || marker_text(e)[0] == '\'',
    decreases e,
{
    match e {
        MarkerView::And(l, r) => {
            lemma_marker_first(*l);
        },
        MarkerView::Or(l, r) => {
            lemma_marker_first(*l);
        },
        MarkerView::Operator { op, lhs, rhs } => {
            lemma_value_first(lhs);
        },
    }
}

/// A marker's nested text reads back as an operand.
proof fn lemma_group_reads_back(s: Seq<char>, i: int, p: int, e: MarkerView)
    requires
        wf_marker(e),
        0 <= i <= p,
        skip_ws(s, i) == p,
        occurs(s, p, group_text(e)),
        p + group_text(e).len() == s.len() || s[p + group_text(e).len()] == ' ' || s[p
            + group_text(e).len()] == ')',
    ensures
        parse_atom(s, i) == Ok::<(MarkerView, int), ErrorView>((e, p + group_text(e).len())),
    decreases e, 2nat,
{
    let g = group_text(e);
    lemma_marker_first(e);
    lemma_occurs_char(s, p, g, 0);
    match e {
        MarkerView::Operator { op, lhs, rhs } => {
            lemma_leaf_reads_back(s, p, p, op, lhs, rhs);
        },
        _ => {
            let m = marker_text(e);
            lemma_occurs_split(s, p, seq!['('] + m, seq![')']);
            lemma_occurs_split(s, p, seq!['('], m);
            lemma_occurs_char(s, p + 1, m, 0);
            lemma_occurs_char(s, p + 1 + m.len(), seq![')'], 0);
            lemma_no_blank(s, p + 1);
            lemma_top_reads_back(s, p + 1, p + 1, e);
            lemma_no_blank(s, p + 1 + m.len());
        },
    }
}

/// A marker's text reads back as itself when the input or a group ends after it.
proof fn lemma_top_reads_back(s: Seq<char>, i: int, p: int, e: MarkerView)
    requires
        wf_marker(e),
        0 <= i <= p,
        skip_ws(s, i) == p,
        occurs(s, p, marker_text(e)),
        p + marker_text(e).len() == s.len() || s[p + marker_text(e).len()] == ')',
    ensures
        parse_or(s, i) == Ok::<(MarkerView, int), ErrorView>((e, p + marker_text(e).len())),
    decreases e, 1nat,
{
    let k = p + marker_text(e).len();
    match e {
        MarkerView::Operator { op, lhs, rhs } => {
            lemma_leaf_reads_back(s, i, p, op, lhs, rhs);
            lemma_rest_stops(s, k, e);
        },
        _ => {
            lemma_pair_reads_back(s, i, p, e);
        },
    }
}

/// The conjunction or disjunction of two operands reads back as itself.
proof fn lemma_pair_reads_back(s: Seq<char>, i: int, p: int, e: MarkerView)
    requires
        !(e is Operator),
        wf_marker(e),
        0 <= i <= p,
        skip_ws(s, i) == p,
        occurs(s, p, marker_text(e)),
        p + marker_text(e).len() == s.len() || s[p + marker_text(e).len()] == ')',
    ensures
        parse_or(s, i) == Ok::<(MarkerView, int), ErrorView>((e, p + marker_text(e).len())),
    decreases e, 0nat,
{
    let k = p + marker_text(e).len();
    let (l, r, kw) = match e {
        MarkerView::And(l, r) => (*l, *r, kw_and()),
        MarkerView::Or(l, r) => (*l, *r, kw_or()),
        MarkerView::Operator { .. } => (e, e, kw_or()),
    };
    let sep = seq![' '] + kw + seq![' '];
    let gl = group_text(l);
    let gr = group_text(r);
    assert(e is And ==> and_sep() =~= sep);
    assert(e is Or ==> or_sep() =~= sep);
    assert(marker_text(e) == gl + sep + gr);
    lemma_occurs_split(s, p, gl + sep, gr);
    lemma_occurs_split(s, p, gl, sep);
    let j1 = p + gl.len();
    let w = j1 + 1 + kw.len();
    lemma_occurs_char(s, j1, sep, 0);
    lemma_occurs_char(s, j1, sep, 1 + kw.len() as int);
    lemma_group_reads_back(s, i, p, l);
    lemma_occurs_split(s, j1, seq![' '] + kw, seq![' ']);
    lemma_occurs_split(s, j1, seq![' '], kw);
    lemma_occurs_char(s, j1 + 1, kw, 0);
    lemma_one_blank(s, j1);
    lemma_word(s, j1 + 1, kw);
    lemma_marker_first(r);
    lemma_occurs_char(s, w + 1, gr, 0);
    lemma_one_blank(s, w);
    lemma_group_reads_back(s, w, w + 1, r);
    assert(parse_atom(s, i) == Ok::<(MarkerView, int), ErrorView>((l, j1)));
    assert(parse_atom(s, w) == Ok::<(MarkerView, int), ErrorView>((r, k)));
    if e is And {
        lemma_rest_stops(s, k, e);
        assert(MarkerView::And(Box::new(l), Box::new(r)) == e);
        assert(and_rest(s, j1, l) == Ok::<(MarkerView, int), ErrorView>((e, k)));
        assert(parse_and(s, i) == Ok::<(MarkerView, int), ErrorView>((e, k)));
    } else {
        assert(kw_or() != kw_and());
        lemma_rest_stops(s, k, r);
        lemma_rest_stops(s, k, e);
        assert(MarkerView::Or(Box::new(l), Box::new(r)) == e);
        assert(and_rest(s, j1, l) == Ok::<(MarkerView, int), ErrorView>((l, j1)));
        assert(parse_and(s, i) == Ok::<(MarkerView, int), ErrorView>((l, j1)));
        assert(parse_and(s, w) == Ok::<(MarkerView, int), ErrorView>((r, k)));
        assert(or_rest(s, j1, l) == Ok::<(MarkerView, int), ErrorView>((e, k)));
    }
}

/// A well-formed marker's text reads back as the same marker.
pub proof fn lemma_marker_round_trip(e: MarkerView)
    requires
        wf_marker(e),
    ensures
        parse_marker(marker_text(e)) == Ok::<MarkerView, ErrorView>(e),
{
    let s = marker_text(e);
    lemma_marker_first(e);
    assert(s.subrange(0, s.len() as int) =~= s);
    lemma_no_blank(s, 0);
    lemma_top_reads_back(s, 0, 0, e);
    lemma_no_blank(s, s.len() as int);
}

/// Every char of an operator's spelling is an operator char.
proof fn lemma_op_spelling(op: CompareOp)
    ensures
        compare_op_text(op).len() >= 1,
        forall|m: int|
            0 <= m < compare_op_text(op).len() ==> in_class(
                #[trigger] compare_op_text(op)[m],
                CharClass::OpChar,
            ),
{
}

proof fn lemma_extras_list_left(x: Seq<Seq<char>>)
    requires
        x.len() >= 2,
    ensures
        extras_list_text(x) == x[0] + seq![','] + extras_list_text(x.drop_first()),
    decreases x.len(),
{
    if x.len() == 2 {
        assert(x.drop_last() =~= seq![x[0]]);
        assert(x.drop_first() =~= seq![x[1]]);
        assert(extras_list_text(x.drop_last()) == x[0]);
        assert(extras_list_text(x.drop_first()) == x[1]);
    } else {
        let d = x.drop_last();
        let t = x.drop_first();
        lemma_extras_list_left(d);
        assert(d.drop_first() =~= t.drop_last());
        assert(t.last() == x.last());
        assert(d[0] == x[0]);
        assert(extras_list_text(t) == extras_list_text(t.drop_last()) + seq![','] + t.last());
        assert(extras_list_text(x) == extras_list_text(d) + seq![','] + x.last());
        assert(x[0] + seq![','] + extras_list_text(t.drop_last()) + seq![','] + x.last() =~= x[0]
            + seq![','] + (extras_list_text(t.drop_last()) + seq![','] + x.last()));
    }
}

proof fn lemma_specifiers_text_left(v: Seq<SpecifierView>)
    requires
        v.len() >= 2,
    ensures
        specifiers_text(v) == specifier_text(v[0]) + seq![',', ' '] + specifiers_text(
            v.drop_first(),
        ),
    decreases v.len(),
{
    if v.len() == 2 {
        assert(v.drop_last() =~= seq![v[0]]);
        assert(v.drop_first() =~= seq![v[1]]);
        assert(specifiers_text(v.drop_last()) == specifier_text(v[0]));
        assert(specifiers_text(v.drop_first()) == specifier_text(v[1]));
    } else {
        let d = v.drop_last();
        let t = v.drop_first();
        lemma_specifiers_text_left(d);
        assert(d.drop_first() =~= t.drop_last());
        assert(t.last() == v.last());
        assert(d[0] == v[0]);
        assert(specifiers_text(t) == specifiers_text(t.drop_last()) + seq![',', ' '] + specifier_text(
            t.last(),
        ));
        assert(specifiers_text(v) == specifiers_text(d) + seq![',', ' '] + specifier_text(v.last()));
        assert((specifier_text(v[0]) + seq![',', ' '] + specifiers_text(v.drop_first().drop_last()))
            + seq![',', ' '] + specifier_text(v.last()) =~= specifier_text(v[0]) + seq![',', ' '] + (
        specifiers_text(v.drop_first().drop_last()) + seq![',', ' '] + specifier_text(v.last())));
    }
}

proof fn lemma_extra_items_read_back(s: Seq<char>, i: int, acc: Seq<Seq<char>>, x: Seq<Seq<char>>)
    requires
        x.len() >= 1,
        forall|m: int| 0 <= m < x.len() ==> valid_name(#[trigger] x[m]),
        occurs(s, i, extras_list_text(x) + seq![']']),
    ensures
        extra_items(s, i, acc) == Ok::<(Seq<Seq<char>>, int), ErrorView>(
            (acc + x, i + extras_list_text(x).len() + 1),
        ),
    decreases x.len(),
{
    let n = x[0];
    assert(valid_name(n));
    let e = i + n.len();
    let rest = if x.len() == 1 {
        seq![']']
    } else {
        seq![','] + extras_list_text(x.drop_first()) + seq![']']
    };
    if x.len() >= 2 {
        lemma_extras_list_left(x);
    }
    assert(extras_list_text(x) + seq![']'] =~= n + rest);
    lemma_occurs_split(s, i, n, rest);
    lemma_occurs_char(s, e, rest, 0);
    assert forall|m: int| 0 <= m < n.len() implies in_class(#[trigger] n[m], CharClass::ExtraBody) by {
        assert(is_name_char(n[m]));
    }
    lemma_span_over(s, i, n, CharClass::ExtraBody);
    lemma_occurs_char(s, i, n, 0);
    lemma_occurs_char(s, i, n, n.len() - 1);
    assert(trim_start(s, i, e) == i);
    assert(trim_end(s, i, e) == e);
    assert(trimmed(s, i, e) == n);
    if x.len() == 1 {
        assert(acc.push(n) =~= acc + x);
    } else {
        let tail = x.drop_first();
        assert(rest =~= seq![','] + (extras_list_text(tail) + seq![']']));
        lemma_occurs_split(s, e, seq![','], extras_list_text(tail) + seq![']']);
        lemma_extra_items_read_back(s, e + 1, acc.push(n), tail);
        assert(acc.push(n) + tail =~= acc + x);
    }
}

proof fn lemma_specifier_reads_back(s: Seq<char>, i: int, p: int, sp: SpecifierView)
    requires
        wf_specifier(sp),
        0 <= i <= p,
        skip_ws(s, i) == p,
        occurs(s, p, specifier_text(sp)),
        p + specifier_text(sp).len() == s.len() || s[p + specifier_text(sp).len()] == ',' || s[p
            + specifier_text(sp).len()] == ';',
    ensures
        parse_specifier(s, i) == Ok::<(SpecifierView, int), ErrorView>(
            (sp, p + specifier_text(sp).len()),
        ),
{
    let t = compare_op_text(sp.op);
    lemma_op_spelling(sp.op);
    lemma_occurs_split(s, p, t, sp.value);
    lemma_occurs_char(s, p + t.len(), sp.value, 0);
    assert(in_class(sp.value[0], CharClass::VersionChar));
    lemma_span_over(s, p, t, CharClass::OpChar);
    lemma_operator_bijection(sp.op, t);
    lemma_no_blank(s, p + t.len());
    lemma_span_over(s, p + t.len(), sp.value, CharClass::VersionChar);
}

proof fn lemma_specifier_items_read_back(
    s: Seq<char>,
    i: int,
    p: int,
    acc: Seq<SpecifierView>,
    v: Seq<SpecifierView>,
)
    requires
        v.len() >= 1,
        forall|m: int| 0 <= m < v.len() ==> wf_specifier(#[trigger] v[m]),
        0 <= i <= p,
        skip_ws(s, i) == p,
        occurs(s, p, specifiers_text(v)),
        p + specifiers_text(v).len() == s.len() || s[p + specifiers_text(v).len()] == ';',
    ensures
        specifier_items(s, i, acc) == Ok::<(Seq<SpecifierView>, int), ErrorView>(
            (acc + v, p + specifiers_text(v).len()),
        ),
    decreases v.len(),
{
    let sp = v[0];
    assert(wf_specifier(sp));
    let t = specifier_text(sp);
    let k = p + specifiers_text(v).len();
    if v.len() == 1 {
        lemma_specifier_reads_back(s, i, p, sp);
        lemma_no_blank(s, k);
        assert(acc.push(sp) =~= acc + v);
    } else {
        let tail = v.drop_first();
        lemma_specifiers_text_left(v);
        lemma_occurs_split(s, p, t + seq![',', ' '], specifiers_text(tail));
        lemma_occurs_split(s, p, t, seq![',', ' ']);
        lemma_occurs_char(s, p + t.len(), seq![',', ' '], 0);
        lemma_occurs_char(s, p + t.len(), seq![',', ' '], 1);
        lemma_specifier_reads_back(s, i, p, sp);
        let e = p + t.len();
        lemma_no_blank(s, e);
        assert(wf_specifier(tail[0]));
        lemma_op_spelling(tail[0].op);
        lemma_occurs_char(s, e + 2, specifiers_text(tail), 0);
        assert(specifiers_text(tail)[0] == compare_op_text(tail[0].op)[0]) by {
            if tail.len() >= 2 {
                lemma_specifiers_text_left(tail);
            }
        }
        lemma_one_blank(s, e + 1);
        lemma_specifier_items_read_back(s, e + 1, e + 2, acc.push(sp), tail);
        assert(acc.push(sp) + tail =~= acc + v);
    }
}

/// The first char of a non-empty list of clauses is an operator char.
proof fn lemma_specifiers_first(v: Seq<SpecifierView>)
    requires
        v.len() >= 1,
    ensures
        specifiers_text(v).len() >= 1,
        is_op_char(specifiers_text(v)[0]),
{
    lemma_op_spelling(v[0].op);
    assert(in_class(compare_op_text(v[0].op)[0], CharClass::OpChar));
    if v.len() >= 2 {
        lemma_specifiers_text_left(v);
    }
}

/// Where each part of a requirement's text stands.
proof fn lemma_parts(r: RequirementView)
    ensures
        occurs(requirement_text(r), 0, r.name),
        occurs(requirement_text(r), r.name.len() as int, extras_text(r.extras)),
        occurs(
            requirement_text(r),
            r.name.len() as int + extras_text(r.extras).len(),
            specifiers_part(r.specifiers),
        ),
        occurs(
            requirement_text(r),
            r.name.len() as int + extras_text(r.extras).len() + specifiers_part(r.specifiers).len(),
            marker_part(r.marker),
        ),
        requirement_text(r).len() == r.name.len() as int + extras_text(r.extras).len() + specifiers_part(
            r.specifiers,
        ).len() + marker_part(r.marker).len(),
{
    let s = requirement_text(r);
    let n = r.name;
    let xt = extras_text(r.extras);
    let st = specifiers_part(r.specifiers);
    let mt = marker_part(r.marker);
    assert(s.subrange(0, s.len() as int) =~= s);
    lemma_occurs_split(s, 0, n + xt + st, mt);
    lemma_occurs_split(s, 0, n + xt, st);
    lemma_occurs_split(s, 0, n, xt);
}

/// The end of the name within a requirement's text, and the name read there.
proof fn lemma_name_reads_back(r: RequirementView)
    requires
        wf_requirement(r),
    ensures
        span_end(requirement_text(r), 0, CharClass::NameBody) == (if extras_text(r.extras).len() == 0
            && specifiers_part(r.specifiers).len() > 0 {
            r.name.len() as int + 1
        } else {
            r.name.len() as int
        }),
        name_part(requirement_text(r)) == r.name,
{
    let s = requirement_text(r);
    let n = r.name;
    let xt = extras_text(r.extras);
    let st = specifiers_part(r.specifiers);
    let mt = marker_part(r.marker);
    let a = n.len() as int;
    let b = a + xt.len();
    let c = b + st.len();
    lemma_parts(r);
    if xt.len() > 0 {
        lemma_occurs_char(s, a, xt, 0);
    } else if st.len() > 0 {
        lemma_specifiers_first(r.specifiers);
        lemma_occurs_char(s, b, st, 0);
        lemma_occurs_char(s, b, st, 1);
    } else if mt.len() > 0 {
        lemma_occurs_char(s, c, mt, 0);
    }
    let ne = if xt.len() == 0 && st.len() > 0 {
        a + 1
    } else {
        a
    };
    assert forall|m: int| 0 <= m < ne implies in_class(#[trigger] s[m], CharClass::NameBody) by {
        if m < a {
            lemma_occurs_char(s, 0, n, m);
            assert(is_name_char(n[m]));
        }
    }
    lemma_span_end_at(s, 0, ne, CharClass::NameBody);
    lemma_occurs_char(s, 0, n, 0);
    lemma_occurs_char(s, 0, n, a - 1);
    assert(trim_start(s, 0, ne) == 0);
    assert(trim_end(s, 0, a) == a);
    assert(trim_end(s, 0, ne) == a);
}

proof fn lemma_extras_read_back(r: RequirementView, extra: ParseExtra, ne: int)
    requires
        wf_requirement(r),
        extra == ParseExtra::Allowed || r.extras.len() == 0,
        ne == span_end(requirement_text(r), 0, CharClass::NameBody),
        ne == (if extras_text(r.extras).len() == 0 && specifiers_part(r.specifiers).len() > 0 {
            r.name.len() as int + 1
        } else {
            r.name.len() as int
        }),
    ensures
        parse_extras(requirement_text(r), ne, extra) == Ok::<(Seq<Seq<char>>, int), ErrorView>(
            (
                r.extras,
                if r.extras.len() > 0 {
                    r.name.len() as int + extras_text(r.extras).len()
                } else {
                    ne
                },
            ),
        ),
{
    let s = requirement_text(r);
    let a = r.name.len() as int;
    let xt = extras_text(r.extras);
    lemma_parts(r);
    lemma_span_end(s, 0, CharClass::NameBody);
    if r.extras.len() > 0 {
        let lt = extras_list_text(r.extras);
        assert(xt =~= seq!['['] + (lt + seq![']']));
        lemma_occurs_split(s, a, seq!['['], lt + seq![']']);
        lemma_occurs_char(s, a, seq!['['], 0);
        lemma_extra_items_read_back(s, a + 1, Seq::empty(), r.extras);
        assert(Seq::<Seq<char>>::empty() + r.extras =~= r.extras);
    } else {
        let b = a + xt.len();
        let st = specifiers_part(r.specifiers);
        let mt = marker_part(r.marker);
        if st.len() > 0 {
            lemma_specifiers_first(r.specifiers);
            lemma_occurs_char(s, b, st, 1);
        } else if mt.len() > 0 {
            lemma_occurs_char(s, b, mt, 0);
        }
        assert(ne < s.len() ==> s[ne] != '[');
        assert(r.extras =~= Seq::<Seq<char>>::empty());
    }
}

proof fn lemma_specifiers_read_back(r: RequirementView, i1: int)
    requires
        wf_requirement(r),
        i1 == (if r.extras.len() > 0 {
            r.name.len() as int + extras_text(r.extras).len()
        } else if specifiers_part(r.specifiers).len() > 0 {
            r.name.len() as int + 1
        } else {
            r.name.len() as int
        }),
    ensures
        parse_specifier_list(requirement_text(r), i1) == Ok::<
            (Seq<SpecifierView>, int),
            ErrorView,
        >(
            (
                r.specifiers,
                r.name.len() as int + extras_text(r.extras).len() + specifiers_part(r.specifiers).len(),
            ),
        ),
{
    let s = requirement_text(r);
    let xt = extras_text(r.extras);
    let st = specifiers_part(r.specifiers);
    let mt = marker_part(r.marker);
    let b = r.name.len() as int + xt.len();
    lemma_parts(r);
    if st.len() > 0 {
        lemma_specifier_list_reads_back(r, i1, b);
    } else {
        if mt.len() > 0 {
            lemma_occurs_char(s, b, mt, 0);
        }
        lemma_no_blank(s, b);
        assert(r.specifiers =~= Seq::<SpecifierView>::empty());
    }
}

proof fn lemma_specifier_list_reads_back(r: RequirementView, i1: int, b: int)
    requires
        wf_requirement(r),
        r.specifiers.len() > 0,
        b == r.name.len() as int + extras_text(r.extras).len(),
        i1 == (if r.extras.len() > 0 {
            b
        } else {
            b + 1
        }),
        occurs(requirement_text(r), b, specifiers_part(r.specifiers)),
        occurs(
            requirement_text(r),
            b + specifiers_part(r.specifiers).len(),
            marker_part(r.marker),
        ),
        requirement_text(r).len() == b + specifiers_part(r.specifiers).len() + marker_part(
            r.marker,
        ).len(),
    ensures
        parse_specifier_list(requirement_text(r), i1) == Ok::<
            (Seq<SpecifierView>, int),
            ErrorView,
        >((r.specifiers, b + specifiers_part(r.specifiers).len())),
{
    let s = requirement_text(r);
    let st = specifiers_part(r.specifiers);
    let mt = marker_part(r.marker);
    let t = specifiers_text(r.specifiers);
    let c = b + st.len();
    if mt.len() > 0 {
        lemma_occurs_char(s, c, mt, 0);
    }
    lemma_specifiers_first(r.specifiers);
    lemma_occurs_split(s, b, seq![' '], t);
    lemma_occurs_char(s, b, seq![' '], 0);
    lemma_occurs_char(s, b + 1, t, 0);
    if r.extras.len() > 0 {
        lemma_one_blank(s, b);
    } else {
        lemma_no_blank(s, b + 1);
    }
    lemma_specifier_items_read_back(s, b + 1, b + 1, Seq::empty(), r.specifiers);
    assert(Seq::<SpecifierView>::empty() + r.specifiers =~= r.specifiers);
}

proof fn lemma_marker_clause_reads_back(r: RequirementView)
    requires
        wf_requirement(r),
    ensures
        parse_marker_clause(
            requirement_text(r),
            r.name.len() as int + extras_text(r.extras).len() + specifiers_part(r.specifiers).len(),
        ) == Ok::<(Option<MarkerView>, int), ErrorView>((r.marker, requirement_text(r).len() as int)),
{
    let s = requirement_text(r);
    let c = r.name.len() as int + extras_text(r.extras).len() + specifiers_part(r.specifiers).len() as int;
    let mt = marker_part(r.marker);
    lemma_parts(r);
    match r.marker {
        Some(e) => {
            lemma_occurs_char(s, c, mt, 0);
            lemma_no_blank(s, c);
            let m = marker_text(e);
            lemma_occurs_split(s, c, seq![';', ' '], m);
            lemma_occurs_char(s, c, seq![';', ' '], 1);
            lemma_marker_first(e);
            lemma_occurs_char(s, c + 2, m, 0);
            lemma_one_blank(s, c + 1);
            lemma_top_reads_back(s, c + 1, c + 2, e);
        },
        None => {
            lemma_no_blank(s, c);
        },
    }
}

/// Reading a well-formed requirement's text gives back the same requirement,
/// so the text of what is read is the text that was read. With extras not
/// allowed, this holds of requirements without extras.
pub proof fn lemma_requirement_round_trip(r: RequirementView, extra: ParseExtra)
    requires
        wf_requirement(r),
        extra == ParseExtra::Allowed || r.extras.len() == 0,
    ensures
        parse_requirement(requirement_text(r), extra) == Ok::<RequirementView, ErrorView>(r),
        requirement_text(r) == requirement_text(parse_requirement(requirement_text(r), extra)->Ok_0),
{
    let s = requirement_text(r);
    lemma_name_reads_back(r);
    let ne = span_end(s, 0, CharClass::NameBody);
    lemma_extras_read_back(r, extra, ne);
    let i1: int = if r.extras.len() > 0 {
        r.name.len() as int + extras_text(r.extras).len()
    } else {
        ne
    };
    lemma_specifiers_read_back(r, i1);
    lemma_marker_clause_reads_back(r);
    lemma_no_blank(s, s.len() as int);
}

} // verus!
