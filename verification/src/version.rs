//! The version tag and the order in which tags are compared.
//!
//! Tags are compared as strings are: byte by byte over their UTF-8
//! encoding, a proper prefix coming first. The order is not numeric, so it
//! ranks `"VER 10.0"` below `"VER 8.8"`; the format's thresholds are defined
//! by this order and the decoder keeps to it.

use vstd::prelude::*;

verus! {

/// From this version on, the drop sites of a unit are preceded by their
/// count. Before it a unit has three.
pub const VER_7_7: &'static str = "VER 7.7";

/// From this version on, combat and creation records carry their later
/// fields.
pub const VER_8_4: &'static str = "VER 8.4";

/// From this version on, train locations are a counted list with hot keys.
pub const VER_8_8: &'static str = "VER 8.8";

/// `a` and `b` being equal before `i`: `a` comes before `b`, or is `b`.
pub open spec fn lex_le_from(a: Seq<u8>, b: Seq<u8>, i: int) -> bool
    decreases a.len() - i,
{
    if i < 0 || i >= a.len() {
        true
    } else if i >= b.len() {
        false
    } else if a[i] != b[i] {
        a[i] < b[i]
    } else {
        lex_le_from(a, b, i + 1)
    }
}

/// `a` comes before `b` in lexicographic order, or is `b`.
pub open spec fn lex_le(a: Seq<u8>, b: Seq<u8>) -> bool {
    lex_le_from(a, b, 0)
}

/// The tag `a` is at most the tag `b`.
pub open spec fn tag_le(a: Seq<char>, b: Seq<char>) -> bool {
    lex_le(vstd::utf8::encode_utf8(a), vstd::utf8::encode_utf8(b))
}

/// The version is the threshold or a later one.
pub open spec fn at_least(version: Seq<char>, threshold: Seq<char>) -> bool {
    tag_le(threshold, version)
}

/// Whether `a` is at most `b` as strings are ordered.
pub fn tag_at_most(a: &str, b: &str) -> (r: bool)
    ensures
        r == tag_le(a@, b@),
{
    let x = a.as_bytes();
    let y = b.as_bytes();
    let mut i: usize = 0;
    while i < x.len() && i < y.len() && x[i] == y[i]
        invariant
            i <= x@.len(),
            i <= y@.len(),
            lex_le(x@, y@) == lex_le_from(x@, y@, i as int),
        decreases x@.len() - i,
    {
        i = i + 1;
    }
    if i >= x.len() {
        true
    } else if i >= y.len() {
        false
    } else {
        x[i] < y[i]
    }
}

/// Whether `version` is `threshold` or later.
pub fn is_at_least(version: &str, threshold: &str) -> (r: bool)
    ensures
        r == at_least(version@, threshold@),
{
    tag_at_most(threshold, version)
}

/// The layouts that depend on the version: which of the format's three
/// thresholds a version has reached.
#[derive(Clone, Copy, Debug, PartialEq, Eq, Structural)]
pub struct Gates {
    /// `"VER 7.7"` or later: drop sites are a counted list.
    pub v7_7: bool,
    /// `"VER 8.4"` or later: the later combat and creation fields are there.
    pub v8_4: bool,
    /// `"VER 8.8"` or later: train locations are a counted list with hot
    /// keys, tasks can be switched off, research locations are listed.
    pub v8_8: bool,
}

/// The gates that a version opens.
pub open spec fn gates_of(version: Seq<char>) -> Gates {
    Gates {
        v7_7: at_least(version, VER_7_7@),
        v8_4: at_least(version, VER_8_4@),
        v8_8: at_least(version, VER_8_8@),
    }
}

/// Compares `version` with the three thresholds.
pub fn gates(version: &str) -> (g: Gates)
    ensures
        g == gates_of(version@),
{
    Gates {
        v7_7: is_at_least(version, VER_7_7),
        v8_4: is_at_least(version, VER_8_4),
        v8_8: is_at_least(version, VER_8_8),
    }
}

} // verus!
