use vstd::prelude::*;
use vstd::string::StringExecFns;

use crate::chars::{chars_of, is_ascii_alnum, lex_cmp, lex_compare};
use crate::error::{ErrorView, RequirementError};

verus! {

/// The separators that name normalization folds together.
pub open spec fn is_separator(c: char) -> bool {
    c == '.' || c == '_' || c == '-'
}

pub open spec fn is_name_char(c: char) -> bool {
    is_ascii_alnum(c) || is_separator(c)
}

/// A package name: ASCII letters, digits, '.', '_' and '-', starting and
/// ending with a letter or digit.
pub open spec fn valid_name(s: Seq<char>) -> bool {
    &&& s.len() >= 1
    &&& is_ascii_alnum(s[0])
    &&& is_ascii_alnum(s[s.len() - 1])
    &&& forall|i: int| 0 <= i < s.len() ==> is_name_char(#[trigger] s[i])
}

/// Every maximal run of separators replaced by a single '-'.
pub open spec fn collapse_separators(s: Seq<char>) -> Seq<char>
    decreases s.len(),
{
    if s.len() == 0 {
        s
    } else if is_separator(s.last()) {
        let p = s.drop_last();
        if p.len() > 0 && is_separator(p.last()) {
            collapse_separators(p)
        } else {
            collapse_separators(p).push('-')
        }
    } else {
        collapse_separators(s.drop_last()).push(s.last())
    }
}

pub open spec fn lower_char(c: char) -> char {
    if 'A' <= c && c <= 'Z' {
        ((c as u32) + 32) as char
    } else {
        c
    }
}

/// ASCII upper-case letters mapped to lower case, every other char kept.
pub open spec fn ascii_lowercase(s: Seq<char>) -> Seq<char> {
    s.map_values(|c: char| lower_char(c))
}

/// The canonical form of a package name, used for identity comparisons.
pub open spec fn canonical_name(s: Seq<char>) -> Seq<char> {
    ascii_lowercase(collapse_separators(s))
}

/// Relies on regex::Regex::is_match: the anchored, case-insensitive, ASCII-only
/// pattern accepts exactly the strings of `valid_name`.
#[verifier::external_body]
fn matches_name_pattern(s: &str) -> (r: bool)
    ensures
        r == valid_name(s@),
{
    regex::Regex::new(r"(?i-u)^([A-Z0-9]|[A-Z0-9][A-Z0-9._-]*[A-Z0-9])$").unwrap().is_match(s)
}

/// Relies on regex::Regex::replace_all with the pattern `[-_.]+`: every
/// leftmost-longest run of separators is replaced by one '-'.
#[verifier::external_body]
fn collapse_separator_runs(s: &str) -> (r: String)
    ensures
        r@ == collapse_separators(s@),
{
    regex::Regex::new(r"[-_.]+").unwrap().replace_all(s, "-").into_owned()
}

/// Relies on str::make_ascii_lowercase: 'A'..='Z' become 'a'..='z', all
/// other chars are left as they are.
#[verifier::external_body]
fn lowercase_ascii_in_place(s: &mut String)
    ensures
        final(s)@ == ascii_lowercase(old(s)@),
{
    s.make_ascii_lowercase()
}

/// A validated package name. It keeps the spelling it was given, for display,
/// and its canonical form, which alone decides equality.
#[derive(Debug)]
pub struct PackageName {
    as_given: String,
    normalized: String,
}

impl View for PackageName {
    type V = Seq<char>;

    /// The spelling the name was given with.
    closed spec fn view(&self) -> Seq<char> {
        self.as_given@
    }
}

impl PackageName {
    #[verifier::type_invariant]
    spec fn inv(&self) -> bool {
        &&& valid_name(self.as_given@)
        &&& self.normalized@ == canonical_name(self.as_given@)
    }

    pub fn as_given(&self) -> (r: &str)
        ensures
            r@ == self@,
            valid_name(r@),
    {
        proof {
            use_type_invariant(self);
        }
        self.as_given.as_str()
    }

    pub fn normalized(&self) -> (r: &str)
        ensures
            r@ == canonical_name(self@),
    {
        proof {
            use_type_invariant(self);
        }
        self.normalized.as_str()
    }
}

/// Validates `input` as a package name and computes its canonical form.
pub fn normalize(input: &str) -> (r: Result<PackageName, RequirementError>)
    ensures
        (match r {
            Ok(n) => valid_name(input@) && n@ == input@,
            Err(e) => !valid_name(input@) && e@ == ErrorView::InvalidName(input@),
        }),
{
    if !matches_name_pattern(input) {
        return Err(RequirementError::InvalidName { name: String::from_str(input) });
    }
    let as_given = String::from_str(input);
    let mut normalized = collapse_separator_runs(input);
    lowercase_ascii_in_place(&mut normalized);
    Ok(PackageName { as_given, normalized })
}

/// Separators occur only as single '-' chars.
pub open spec fn is_collapsed(t: Seq<char>) -> bool {
    forall|i: int|
        0 <= i < t.len() && is_separator(#[trigger] t[i]) ==> t[i] == '-' && (i + 1 < t.len()
            ==> !is_separator(t[i + 1]))
}

proof fn lemma_collapse_shape(s: Seq<char>)
    ensures
        is_collapsed(collapse_separators(s)),
        s.len() > 0 ==> collapse_separators(s).len() > 0 && collapse_separators(s).last() == (
        if is_separator(s.last()) {
            '-'
        } else {
            s.last()
        }),
        s.len() > 0 && !is_separator(s[0]) ==> collapse_separators(s)[0] == s[0],
        (forall|i: int| 0 <= i < s.len() ==> is_name_char(#[trigger] s[i])) ==> (forall|i: int|
            0 <= i < collapse_separators(s).len() ==> is_name_char(
                #[trigger] collapse_separators(s)[i],
            )),
    decreases s.len(),
{
    if s.len() > 0 {
        let p = s.drop_last();
        lemma_collapse_shape(p);
        if s.len() > 1 {
            assert(p[0] == s[0]);
        }
        if (forall|i: int| 0 <= i < s.len() ==> is_name_char(#[trigger] s[i])) {
            assert forall|i: int| 0 <= i < p.len() implies is_name_char(#[trigger] p[i]) by {
                assert(p[i] == s[i]);
            }
            assert(is_name_char(s[s.len() - 1]));
        }
    }
}

proof fn lemma_collapse_fixes(t: Seq<char>)
    requires
        is_collapsed(t),
    ensures
        collapse_separators(t) == t,
    decreases t.len(),
{
    if t.len() > 0 {
        let p = t.drop_last();
        assert(is_collapsed(p)) by {
            assert forall|i: int| 0 <= i < p.len() && is_separator(#[trigger] p[i]) implies p[i]
                == '-' && (i + 1 < p.len() ==> !is_separator(p[i + 1])) by {
                assert(t[i] == p[i]);
                assert(i + 1 < p.len() ==> t[i + 1] == p[i + 1]);
            }
        }
        lemma_collapse_fixes(p);
        if t.len() > 1 && is_separator(t.last()) {
            assert(t[t.len() - 2] == p.last());
        }
        assert(p.push(t.last()) =~= t);
    }
}

proof fn lemma_lower_char(c: char)
    ensures
        is_separator(lower_char(c)) == is_separator(c),
        is_separator(c) ==> lower_char(c) == c,
        is_ascii_alnum(c) ==> is_ascii_alnum(lower_char(c)),
        lower_char(lower_char(c)) == lower_char(c),
{
}

/// The canonical form of a valid name is a valid name, and it is its own
/// canonical form: normalizing an already normalized name yields itself.
pub proof fn lemma_canonical_idempotent(x: Seq<char>)
    requires
        valid_name(x),
    ensures
        valid_name(canonical_name(x)),
        canonical_name(canonical_name(x)) == canonical_name(x),
{
    let c = collapse_separators(x);
    let l = ascii_lowercase(c);
    lemma_collapse_shape(x);
    assert forall|i: int| 0 <= i < l.len() implies is_name_char(#[trigger] l[i]) by {
        lemma_lower_char(c[i]);
        assert(is_name_char(c[i]));
    }
    lemma_lower_char(c[0]);
    lemma_lower_char(c[c.len() - 1]);
    assert(valid_name(l));
    assert(is_collapsed(l)) by {
        assert forall|i: int| 0 <= i < l.len() && is_separator(#[trigger] l[i]) implies l[i] == '-'
            && (i + 1 < l.len() ==> !is_separator(l[i + 1])) by {
            lemma_lower_char(c[i]);
            if i + 1 < l.len() {
                lemma_lower_char(c[i + 1]);
            }
        }
    }
    lemma_collapse_fixes(l);
    assert forall|i: int| 0 <= i < l.len() implies #[trigger] lower_char(l[i]) == l[i] by {
        lemma_lower_char(c[i]);
    }
    assert(ascii_lowercase(l) =~= l);
}

impl PartialEq for PackageName {
    fn eq(&self, other: &PackageName) -> (r: bool)
        ensures
            r == (canonical_name(self@) == canonical_name(other@)),
    {
        proof {
            use_type_invariant(self);
            use_type_invariant(other);
        }
        self.normalized == other.normalized
    }
}

impl vstd::std_specs::cmp::PartialEqSpecImpl for PackageName {
    open spec fn obeys_eq_spec() -> bool {
        true
    }

    open spec fn eq_spec(&self, other: &PackageName) -> bool {
        canonical_name(self@) == canonical_name(other@)
    }
}

/// The order that an outcome of `lex_cmp` stands for.
pub open spec fn ordering_of(o: int) -> core::cmp::Ordering {
    if o < 0 {
        core::cmp::Ordering::Less
    } else if o == 0 {
        core::cmp::Ordering::Equal
    } else {
        core::cmp::Ordering::Greater
    }
}

impl PartialOrd for PackageName {
    /// Names are ordered by their canonical forms, char by char.
    fn partial_cmp(&self, other: &PackageName) -> (r: Option<core::cmp::Ordering>)
        ensures
            r == Some(ordering_of(lex_cmp(canonical_name(self@), canonical_name(other@)))),
    {
        proof {
            use_type_invariant(self);
            use_type_invariant(other);
        }
        let a = chars_of(self.normalized.as_str());
        let b = chars_of(other.normalized.as_str());
        let o = lex_compare(&a, &b);
        Some(
            if o < 0 {
                core::cmp::Ordering::Less
            } else if o == 0 {
                core::cmp::Ordering::Equal
            } else {
                core::cmp::Ordering::Greater
            },
        )
    }
}

impl vstd::std_specs::cmp::PartialOrdSpecImpl for PackageName {
    open spec fn obeys_partial_cmp_spec() -> bool {
        true
    }

    open spec fn partial_cmp_spec(&self, other: &PackageName) -> Option<core::cmp::Ordering> {
        Some(ordering_of(lex_cmp(canonical_name(self@), canonical_name(other@))))
    }
}

impl Clone for PackageName {
    fn clone(&self) -> (r: PackageName)
        ensures
            r@ == self@,
    {
        proof {
            use_type_invariant(self);
        }
        PackageName { as_given: self.as_given.clone(), normalized: self.normalized.clone() }
    }
}

impl Eq for PackageName {
}

} // verus!
