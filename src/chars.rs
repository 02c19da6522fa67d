use vstd::prelude::*;

verus! {

/// ASCII letters and digits.
pub open spec fn is_ascii_alnum(c: char) -> bool {
    ('a' <= c && c <= 'z') || ('A' <= c && c <= 'Z') || ('0' <= c && c <= '9')
}

/// The classes of characters that the grammar's tokens are made of.
#[derive(Debug, Clone, Copy, PartialEq, Eq)]
pub enum CharClass {
    /// Blanks between tokens: ' ' and '\t'.
    Space,
    /// The characters of comparison operators: `<>=!~`.
    OpChar,
    /// The characters of a version: letters, digits and `.*+-_`.
    VersionChar,
    /// The characters of a marker variable or keyword: letters, digits, `_` and `.`.
    VarChar,
    /// Anything up to where a requirement's name ends: all but `[`, `;` and operator chars.
    NameBody,
    /// Anything up to where an extra ends: all but `,` and `]`.
    ExtraBody,
    /// Anything but a double quote.
    NotDoubleQuote,
    /// Anything but a single quote.
    NotSingleQuote,
    /// ASCII digits.
    Digit,
}

pub open spec fn is_op_char(c: char) -> bool {
    c == '<' || c == '>' || c == '=' || c == '!' || c == '~'
}

pub open spec fn in_class(c: char, k: CharClass) -> bool {
    match k {
        CharClass::Space => c == ' ' || c == '\t',
        CharClass::OpChar => is_op_char(c),
        CharClass::VersionChar => is_ascii_alnum(c) || c == '.' || c == '*' || c == '+' || c
            == '-' || c == '_',
        CharClass::VarChar => is_ascii_alnum(c) || c == '_' || c == '.',
        CharClass::NameBody => !(c == '[' || c == ';' || is_op_char(c)),
        CharClass::ExtraBody => !(c == ',' || c == ']'),
        CharClass::NotDoubleQuote => c != '"',
        CharClass::NotSingleQuote => c != '\'',
        CharClass::Digit => '0' <= c && c <= '9',
    }
}

/// The end of the longest run of class-`k` chars of `s` that starts at `i`.
pub open spec fn span_end(s: Seq<char>, i: int, k: CharClass) -> int
    decreases s.len() - i,
{
    if 0 <= i < s.len() && in_class(s[i], k) {
        span_end(s, i + 1, k)
    } else {
        i
    }
}

/// The first position at or after `i` that holds no blank.
pub open spec fn skip_ws(s: Seq<char>, i: int) -> int {
    span_end(s, i, CharClass::Space)
}

/// `lo` moved forward past blanks, but not beyond `hi`.
pub open spec fn trim_start(s: Seq<char>, lo: int, hi: int) -> int
    decreases hi - lo,
{
    if 0 <= lo < hi && in_class(s[lo], CharClass::Space) {
        trim_start(s, lo + 1, hi)
    } else {
        lo
    }
}

/// `hi` moved back past blanks, but not below `lo`.
pub open spec fn trim_end(s: Seq<char>, lo: int, hi: int) -> int
    decreases hi - lo,
{
    if lo < hi <= s.len() && in_class(s[hi - 1], CharClass::Space) {
        trim_end(s, lo, hi - 1)
    } else {
        hi
    }
}

/// `s[lo..hi]` without the blanks at either end.
pub open spec fn trimmed(s: Seq<char>, lo: int, hi: int) -> Seq<char> {
    let a = trim_start(s, lo, hi);
    s.subrange(a, trim_end(s, a, hi))
}

/// A span never ends before it starts, nor past the end when it starts inside.
pub proof fn lemma_span_end_ge(s: Seq<char>, i: int, k: CharClass)
    ensures
        i <= span_end(s, i, k),
        0 <= i <= s.len() ==> span_end(s, i, k) <= s.len(),
    decreases s.len() - i,
{
    if 0 <= i < s.len() && in_class(s[i], k) {
        lemma_span_end_ge(s, i + 1, k);
    }
}

pub proof fn lemma_span_end(s: Seq<char>, i: int, k: CharClass)
    requires
        0 <= i <= s.len(),
    ensures
        i <= span_end(s, i, k) <= s.len(),
        forall|m: int| i <= m < span_end(s, i, k) ==> in_class(#[trigger] s[m], k),
        span_end(s, i, k) < s.len() ==> !in_class(s[span_end(s, i, k)], k),
    decreases s.len() - i,
{
    if i < s.len() && in_class(s[i], k) {
        lemma_span_end(s, i + 1, k);
    }
}

/// A span that is known to end at `j` does end there.
pub proof fn lemma_span_end_at(s: Seq<char>, i: int, j: int, k: CharClass)
    requires
        0 <= i <= j <= s.len(),
        forall|m: int| i <= m < j ==> in_class(#[trigger] s[m], k),
        j == s.len() || !in_class(s[j], k),
    ensures
        span_end(s, i, k) == j,
    decreases j - i,
{
    if i < j {
        lemma_span_end_at(s, i + 1, j, k);
    }
}

pub fn char_in(c: char, k: CharClass) -> (r: bool)
    ensures
        r == in_class(c, k),
{
    match k {
        CharClass::Space => c == ' ' || c == '\t',
        CharClass::OpChar => c == '<' || c == '>' || c == '=' || c == '!' || c == '~',
        CharClass::VersionChar => ascii_alnum(c) || c == '.' || c == '*' || c == '+' || c == '-'
            || c == '_',
        CharClass::VarChar => ascii_alnum(c) || c == '_' || c == '.',
        CharClass::NameBody => !(c == '[' || c == ';' || c == '<' || c == '>' || c == '=' || c
            == '!' || c == '~'),
        CharClass::ExtraBody => !(c == ',' || c == ']'),
        CharClass::NotDoubleQuote => c != '"',
        CharClass::NotSingleQuote => c != '\'',
        CharClass::Digit => '0' <= c && c <= '9',
    }
}

pub fn ascii_alnum(c: char) -> (r: bool)
    ensures
        r == is_ascii_alnum(c),
{
    ('a' <= c && c <= 'z') || ('A' <= c && c <= 'Z') || ('0' <= c && c <= '9')
}

/// The end of the run of class-`k` chars that starts at `i`.
pub fn scan(s: &Vec<char>, i: usize, k: CharClass) -> (j: usize)
    requires
        i <= s@.len(),
    ensures
        j == span_end(s@, i as int, k),
        i <= j <= s@.len(),
{
    let mut j = i;
    while j < s.len() && char_in(s[j], k)
        invariant
            i <= j <= s@.len(),
            span_end(s@, i as int, k) == span_end(s@, j as int, k),
        decreases s@.len() - j,
    {
        j = j + 1;
    }
    j
}

pub fn skip_blanks(s: &Vec<char>, i: usize) -> (j: usize)
    requires
        i <= s@.len(),
    ensures
        j == skip_ws(s@, i as int),
        i <= j <= s@.len(),
{
    scan(s, i, CharClass::Space)
}

/// The bounds of `s[lo..hi]` without the blanks at either end.
pub fn trim_bounds(s: &Vec<char>, lo: usize, hi: usize) -> (r: (usize, usize))
    requires
        lo <= hi <= s@.len(),
    ensures
        r.0 == trim_start(s@, lo as int, hi as int),
        r.1 == trim_end(s@, r.0 as int, hi as int),
        lo <= r.0 <= r.1 <= hi,
{
    let mut a = lo;
    while a < hi && char_in(s[a], CharClass::Space)
        invariant
            lo <= a <= hi,
            hi <= s@.len(),
            trim_start(s@, lo as int, hi as int) == trim_start(s@, a as int, hi as int),
        decreases hi - a,
    {
        a = a + 1;
    }
    let mut b = hi;
    while b > a && char_in(s[b - 1], CharClass::Space)
        invariant
            a <= b <= hi,
            hi <= s@.len(),
            trim_end(s@, a as int, hi as int) == trim_end(s@, a as int, b as int),
        decreases b - a,
    {
        b = b - 1;
    }
    (a, b)
}

/// -1, 0 or 1 as `a` sorts before, equal to, or after `b`, char by char.
pub open spec fn lex_cmp(a: Seq<char>, b: Seq<char>) -> int
    decreases a.len(),
{
    if a.len() == 0 {
        if b.len() == 0 {
            0
        } else {
            -1
        }
    } else if b.len() == 0 {
        1
    } else if a[0] != b[0] {
        if a[0] < b[0] {
            -1
        } else {
            1
        }
    } else {
        lex_cmp(a.drop_first(), b.drop_first())
    }
}

/// The order of `a` and `b`; see `lex_cmp`.
pub fn lex_compare(a: &Vec<char>, b: &Vec<char>) -> (r: i8)
    ensures
        r as int == lex_cmp(a@, b@),
{
    let mut i: usize = 0;
    assert(a@.skip(0) =~= a@);
    assert(b@.skip(0) =~= b@);
    while i < a.len() && i < b.len()
        invariant
            i <= a@.len(),
            i <= b@.len(),
            lex_cmp(a@, b@) == lex_cmp(a@.skip(i as int), b@.skip(i as int)),
        decreases a@.len() - i,
    {
        proof {
            assert(a@.skip(i as int).drop_first() =~= a@.skip(i as int + 1));
            assert(b@.skip(i as int).drop_first() =~= b@.skip(i as int + 1));
        }
        if a[i] != b[i] {
            return if a[i] < b[i] {
                -1
            } else {
                1
            };
        }
        i = i + 1;
    }
    if i < a.len() {
        1
    } else if i < b.len() {
        -1
    } else {
        0
    }
}

/// Whether `s` holds `c`.
pub fn contains_char(s: &str, c: char) -> (r: bool)
    ensures
        r == s@.contains(c),
{
    let v = chars_of(s);
    let mut i: usize = 0;
    while i < v.len()
        invariant
            v@ == s@,
            i <= v@.len(),
            forall|m: int| 0 <= m < i ==> v@[m] != c,
        decreases v@.len() - i,
    {
        if v[i] == c {
            return true;
        }
        i = i + 1;
    }
    false
}

/// The characters of a string, in order.
pub fn chars_of(s: &str) -> (r: Vec<char>)
    ensures
        r@ == s@,
{
    let mut out: Vec<char> = Vec::new();
    for c in it: s.chars()
        invariant
            out@ == it.seq().take(it.index() as int),
            it.seq() == s@,
    {
        out.push(c);
    }
    out
}

} // verus!
