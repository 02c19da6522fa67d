use vstd::prelude::*;

use crate::chars::{span_end, CharClass};

verus! {

/// A Python interpreter and its version.
#[derive(Debug, Clone)]
pub struct Python {
    pub exe_path: String,
    pub major: String,
    pub minor: String,
    pub patch: String,
}

/// `Python X.Y.Z` at position `k` of `s`, with X, Y and Z the longest runs of
/// digits there.
pub open spec fn version_at(s: Seq<char>, k: int) -> Option<(Seq<char>, Seq<char>, Seq<char>)> {
    let a = k + 7;
    let ae = span_end(s, a, CharClass::Digit);
    let b = ae + 1;
    let be = span_end(s, b, CharClass::Digit);
    let c = be + 1;
    let ce = span_end(s, c, CharClass::Digit);
    if 0 <= k && a <= s.len() && s.subrange(k, a) == "Python "@ && a < ae && ae < s.len() && s[ae]
        == '.' && b < be && be < s.len() && s[be] == '.' && c < ce {
        Some((s.subrange(a, ae), s.subrange(b, be), s.subrange(c, ce)))
    } else {
        None
    }
}

/// The version at the first position, from `k` on, where one stands.
pub open spec fn first_version(s: Seq<char>, k: int) -> Option<(Seq<char>, Seq<char>, Seq<char>)>
    decreases s.len() - k,
{
    if 0 <= k < s.len() {
        match version_at(s, k) {
            Some(v) => Some(v),
            None => first_version(s, k + 1),
        }
    } else {
        None
    }
}

/// Relies on regex::Regex::captures with `Python ([0-9]+)\.([0-9]+)\.([0-9]+)`:
/// the leftmost match, whose greedy groups are the longest digit runs there.
#[verifier::external_body]
fn version_captures(output: &str) -> (r: Option<(String, String, String)>)
    ensures
        (match r {
            Some(v) => first_version(output@, 0) == Some((v.0@, v.1@, v.2@)),
            None => first_version(output@, 0) is None,
        }),
{
    let re = regex::Regex::new(r"Python ([0-9]+)\.([0-9]+)\.([0-9]+)").unwrap();
    re.captures(output).map(|c| (c[1].to_string(), c[2].to_string(), c[3].to_string()))
}

impl Python {
    /// The interpreter at `exe_path`, whose `-V` output is `output`; nothing
    /// when the output names no version.
    pub fn from_version_output(exe_path: String, output: &str) -> (r: Option<Python>)
        ensures
            (match r {
                Some(p) => first_version(output@, 0) == Some((p.major@, p.minor@, p.patch@))
                    && p.exe_path == exe_path,
                None => first_version(output@, 0) is None,
            }),
    {
        match version_captures(output) {
            Some((major, minor, patch)) => Some(Python { exe_path, major, minor, patch }),
            None => None,
        }
    }
}

} // verus!
