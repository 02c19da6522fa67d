use vstd::prelude::*;

use vstd::string::StringExecFns;

use crate::chars::{chars_of, in_class, scan, trim_bounds, CharClass};
use crate::error::{ErrorView, RequirementError};
use crate::grammar::{name_part, parse_marker, parse_requirement, parse_specifiers};
use crate::marker::{marker_text, wf_marker, EnvMarkerExpr, MarkerView};
use crate::name::{normalize, valid_name, PackageName};
use crate::parser::{expect_end, extras_at, marker_clause_at, marker_from_start, specifier_list_at, text_of};
use crate::specifier::{specifiers_text, SpecifierView, Specifiers};

verus! {

/// Whether a requirement may carry extras.
#[derive(Debug, Clone, Copy, PartialEq, Eq, Structural)]
pub enum ParseExtra {
    Allowed,
    NotAllowed,
}

/// A package requirement: a name, extras, version clauses and an optional
/// environment marker.
#[derive(Debug, Clone, PartialEq, Eq)]
pub struct Requirement {
    pub name: PackageName,
    pub extras: Vec<PackageName>,
    pub specifiers: Specifiers,
    pub env_marker_expr: Option<EnvMarkerExpr>,
}

pub struct RequirementView {
    /// The name as given.
    pub name: Seq<char>,
    /// The extras as given.
    pub extras: Seq<Seq<char>>,
    pub specifiers: Seq<SpecifierView>,
    pub marker: Option<MarkerView>,
}

impl View for Requirement {
    type V = RequirementView;

    open spec fn view(&self) -> RequirementView {
        RequirementView {
            name: self.name@,
            extras: self.extras@.map_values(|n: PackageName| n@),
            specifiers: self.specifiers@,
            marker: match self.env_marker_expr {
                Some(e) => Some(e@),
                None => None,
            },
        }
    }
}

/// The names joined by ','.
pub open spec fn extras_list_text(x: Seq<Seq<char>>) -> Seq<char>
    decreases x.len(),
{
    if x.len() == 0 {
        Seq::empty()
    } else if x.len() == 1 {
        x[0]
    } else {
        extras_list_text(x.drop_last()) + seq![','] + x.last()
    }
}

/// `[a,b]`, or nothing when there are no extras.
pub open spec fn extras_text(x: Seq<Seq<char>>) -> Seq<char> {
    if x.len() == 0 {
        Seq::empty()
    } else {
        seq!['['] + extras_list_text(x) + seq![']']
    }
}

/// A blank and the clauses, or nothing when there are none.
pub open spec fn specifiers_part(v: Seq<SpecifierView>) -> Seq<char> {
    if v.len() == 0 {
        Seq::empty()
    } else {
        seq![' '] + specifiers_text(v)
    }
}

/// `; ` and the marker, or nothing.
pub open spec fn marker_part(m: Option<MarkerView>) -> Seq<char> {
    match m {
        Some(e) => seq![';', ' '] + marker_text(e),
        None => Seq::empty(),
    }
}

/// `name[extras] specifiers; marker`, each part present only when it is not
/// empty.
pub open spec fn requirement_text(r: RequirementView) -> Seq<char> {
    r.name + extras_text(r.extras) + specifiers_part(r.specifiers) + marker_part(r.marker)
}

/// A version clause that reads back as itself.
pub open spec fn wf_specifier(sp: SpecifierView) -> bool {
    sp.value.len() > 0 && forall|i: int|
        0 <= i < sp.value.len() ==> in_class(#[trigger] sp.value[i], CharClass::VersionChar)
}

/// A requirement whose text reads back as itself.
pub open spec fn wf_requirement(r: RequirementView) -> bool {
    &&& valid_name(r.name)
    &&& forall|i: int| 0 <= i < r.extras.len() ==> valid_name(#[trigger] r.extras[i])
    &&& forall|i: int| 0 <= i < r.specifiers.len() ==> wf_specifier(#[trigger] r.specifiers[i])
    &&& match r.marker {
        Some(e) => wf_marker(e),
        None => true,
    }
}

} // verus!

verus! {

impl Requirement {
    /// Reads a requirement string; with `ParseExtra::NotAllowed` a '[' after
    /// the name is an error.
    pub fn parse(input: &str, parse_extra: ParseExtra) -> (r: Result<Requirement, RequirementError>)
        ensures
            (match r {
                Ok(req) => parse_requirement(input@, parse_extra) == Ok::<
                    RequirementView,
                    ErrorView,
                >(req@),
                Err(e) => parse_requirement(input@, parse_extra) == Err::<
                    RequirementView,
                    ErrorView,
                >(e@),
            }),
    {
        let s = chars_of(input);
        let ne = scan(&s, 0, CharClass::NameBody);
        let (a, b) = trim_bounds(&s, 0, ne);
        let text = text_of(input, a, b);
        assert(text@ == name_part(s@));
        let name = match normalize(text.as_str()) {
            Ok(n) => n,
            Err(e) => return Err(e),
        };
        let (extras, i1) = match extras_at(input, &s, ne, parse_extra) {
            Ok(x) => x,
            Err(e) => return Err(e),
        };
        let (specs, i2) = match specifier_list_at(input, &s, i1) {
            Ok(x) => x,
            Err(e) => return Err(e),
        };
        let (marker, i3) = match marker_clause_at(input, &s, i2) {
            Ok(x) => x,
            Err(e) => return Err(e),
        };
        match expect_end(input, &s, i3) {
            Ok(_) => {},
            Err(e) => return Err(e),
        }
        let req = Requirement {
            name,
            extras,
            specifiers: Specifiers(specs),
            env_marker_expr: marker,
        };
        assert(req@ == parse_requirement(input@, parse_extra)->Ok_0);
        Ok(req)
    }

    /// The requirement's text; see `requirement_text`.
    pub fn to_string(&self) -> (r: String)
        ensures
            r@ == requirement_text(self@),
    {
        let mut out = String::from_str(self.name.as_given());
        let n = self.extras.len();
        if n > 0 {
            proof {
                reveal_strlit("[");
                reveal_strlit(",");
                reveal_strlit("]");
            }
            out.append("[");
            let ghost x = self@.extras;
            let mut i: usize = 0;
            while i < n
                invariant
                    n == self.extras@.len(),
                    x == self@.extras,
                    x.len() == n,
                    0 < n,
                    i <= n,
                    out@ == self@.name + seq!['['] + extras_list_text(x.take(i as int)),
                decreases n - i,
            {
                proof {
                    reveal_strlit(",");
                }
                if i > 0 {
                    out.append(",");
                }
                let piece = self.extras[i].as_given();
                out.append(piece);
                proof {
                    let t = x.take(i as int + 1);
                    assert(t.drop_last() =~= x.take(i as int));
                    assert(t.last() == x[i as int]);
                    assert(piece@ == x[i as int]);
                    if i == 0 {
                        assert(extras_list_text(t) == t[0]);
                        assert(extras_list_text(x.take(0)) =~= Seq::<char>::empty());
                    } else {
                        assert(extras_list_text(t) == extras_list_text(t.drop_last()) + seq![',']
                            + t.last());
                    }
                }
                assert(out@ =~= self@.name + seq!['['] + extras_list_text(x.take(i as int + 1)));
                i = i + 1;
            }
            out.append("]");
            assert(x.take(n as int) =~= x);
        }
        assert(out@ =~= self@.name + extras_text(self@.extras));
        if self.specifiers.0.len() > 0 {
            proof {
                reveal_strlit(" ");
            }
            out.append(" ");
            let text = self.specifiers.to_string();
            out.append(text.as_str());
        }
        assert(out@ =~= self@.name + extras_text(self@.extras) + specifiers_part(self@.specifiers));
        match &self.env_marker_expr {
            Some(m) => {
                proof {
                    reveal_strlit("; ");
                }
                out.append("; ");
                let text = m.to_string();
                out.append(text.as_str());
            },
            None => {},
        }
        assert(out@ =~= requirement_text(self@));
        out
    }
}

/// A marker expression on its own.
#[derive(Debug, Clone, PartialEq, Eq)]
pub struct StandaloneMarkerExpr(pub EnvMarkerExpr);

impl StandaloneMarkerExpr {
    pub fn parse(input: &str) -> (r: Result<StandaloneMarkerExpr, RequirementError>)
        ensures
            (match r {
                Ok(m) => parse_marker(input@) == Ok::<MarkerView, ErrorView>(m.0@),
                Err(e) => parse_marker(input@) == Err::<MarkerView, ErrorView>(e@),
            }),
    {
        let s = chars_of(input);
        let (m, j) = match marker_from_start(input, &s) {
            Ok(x) => x,
            Err(e) => return Err(e),
        };
        match expect_end(input, &s, j) {
            Ok(_) => Ok(StandaloneMarkerExpr(m)),
            Err(e) => Err(e),
        }
    }

    pub fn to_string(&self) -> (r: String)
        ensures
            r@ == marker_text(self.0@),
    {
        self.0.to_string()
    }
}

impl Specifiers {
    /// Reads a list of version clauses separated by ','; an empty or blank
    /// text is the empty list.
    pub fn parse(input: &str) -> (r: Result<Specifiers, RequirementError>)
        ensures
            (match r {
                Ok(v) => parse_specifiers(input@) == Ok::<Seq<SpecifierView>, ErrorView>(v@),
                Err(e) => parse_specifiers(input@) == Err::<Seq<SpecifierView>, ErrorView>(e@),
            }),
    {
        let s = chars_of(input);
        let (v, j) = match specifier_list_at(input, &s, 0) {
            Ok(x) => x,
            Err(e) => return Err(e),
        };
        match expect_end(input, &s, j) {
            Ok(_) => Ok(Specifiers(v)),
            Err(e) => Err(e),
        }
    }
}

} // verus!
