use vstd::prelude::*;
use vstd::string::StringExecFns;

verus! {

/// `seg` appended to `base` as a Unix path: an absolute `seg` replaces
/// `base`, and one '/' separates the two otherwise.
pub open spec fn path_join(base: Seq<char>, seg: Seq<char>) -> Seq<char> {
    if seg.len() > 0 && seg[0] == '/' {
        seg
    } else if base.len() == 0 || base.last() == '/' {
        base + seg
    } else {
        base + seq!['/'] + seg
    }
}

/// Joins two Unix paths; see `path_join`.
pub fn join_path(base: &str, seg: &str) -> (r: String)
    ensures
        r@ == path_join(base@, seg@),
{
    let b = crate::chars::chars_of(base);
    let s = crate::chars::chars_of(seg);
    if s.len() > 0 && s[0] == '/' {
        return String::from_str(seg);
    }
    let mut out = String::from_str(base);
    if !(b.len() == 0 || b[b.len() - 1] == '/') {
        proof {
            reveal_strlit("/");
        }
        out.append("/");
    }
    out.append(seg);
    out
}

} // verus!
