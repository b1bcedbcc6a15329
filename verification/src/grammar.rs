use vstd::prelude::*;

use crate::configuration::Configuration;

verus! {

/// Identifier-class characters: ASCII letters, digits, `_`, and `.`
/// (member access binds into the same token). Every other character is
/// operator/punctuation-class. Two adjacent characters belong to the same
/// token exactly when they have the same class.
pub open spec fn is_ident_char(c: char) -> bool {
    ('a' <= c && c <= 'z') || ('A' <= c && c <= 'Z') || ('0' <= c && c <= '9') || c == '_' || c
        == '.'
}

pub fn is_identifier(c: char) -> (r: bool)
    ensures
        r == is_ident_char(c),
{
    ('a' <= c && c <= 'z') || ('A' <= c && c <= 'Z') || ('0' <= c && c <= '9') || c == '_' || c
        == '.'
}

/// Whitespace as far as line trimming is concerned.
pub open spec fn is_ws_char(c: char) -> bool {
    c == ' ' || c == '\t' || c == '\n' || c == '\r'
}

pub fn is_whitespace(c: char) -> (r: bool)
    ensures
        r == is_ws_char(c),
{
    c == ' ' || c == '\t' || c == '\n' || c == '\r'
}

pub open spec fn kw_if() -> Seq<char> {
    seq!['i', 'f']
}

pub open spec fn kw_elif() -> Seq<char> {
    seq!['e', 'l', 'i', 'f']
}

pub open spec fn kw_else() -> Seq<char> {
    seq!['e', 'l', 's', 'e']
}

pub open spec fn kw_endif() -> Seq<char> {
    seq!['e', 'n', 'd', 'i', 'f']
}

pub open spec fn kw_foreach() -> Seq<char> {
    seq!['f', 'o', 'r', 'e', 'a', 'c', 'h']
}

pub open spec fn kw_endforeach() -> Seq<char> {
    seq!['e', 'n', 'd', 'f', 'o', 'r', 'e', 'a', 'c', 'h']
}

/// `t` ends with the suffix `p`.
pub open spec fn ends_with(t: Seq<char>, p: Seq<char>) -> bool {
    t.len() >= p.len() && t.skip(t.len() - p.len()) == p
}

/// Compare two character vectors.
pub fn vec_eq(a: &Vec<char>, b: &Vec<char>) -> (r: bool)
    ensures
        r == (a@ == b@),
{
    if a.len() != b.len() {
        return false;
    }
    let mut k: usize = 0;
    while k < a.len()
        invariant
            k <= a.len(),
            a@.len() == b@.len(),
            forall|j: int| 0 <= j < k ==> a@[j] == b@[j],
        decreases a.len() - k,
    {
        if a[k] != b[k] {
            return false;
        }
        k += 1;
    }
    proof {
        assert(a@ =~= b@);
    }
    true
}

/// Does `t` end with the characters of `p`?
pub fn ends_with_chars(t: &Vec<char>, p: &Vec<char>) -> (r: bool)
    ensures
        r == ends_with(t@, p@),
{
    let n = t.len();
    let m = p.len();
    if n < m {
        return false;
    }
    let base: usize = n - m;
    let mut k: usize = 0;
    while k < m
        invariant
            k <= m,
            m == p@.len(),
            n == t@.len(),
            base == t@.len() - p@.len(),
            t@.len() >= p@.len(),
            forall|j: int| 0 <= j < k ==> t@[base + j] == p@[j],
        decreases m - k,
    {
        if t[base + k] != p[k] {
            assert(t@.skip(t@.len() - p@.len())[k as int] != p@[k as int]);
            return false;
        }
        k += 1;
    }
    proof {
        assert(t@.skip(t@.len() - p@.len()) =~= p@);
    }
    true
}

/// The fixed set of build-rule identifiers whose argument lists may keep
/// their first positional argument on the header line.
pub open spec fn is_call_name_suffix(t: Seq<char>) -> bool {
    ||| ends_with(t, seq!['p', 'r', 'o', 'j', 'e', 'c', 't'])
    ||| ends_with(t, seq!['d', 'e', 'p', 'e', 'n', 'd', 'e', 'n', 'c', 'y'])
    ||| ends_with(t, seq!['t', 'a', 'r', 'g', 'e', 't'])
    ||| ends_with(t, seq!['l', 'i', 'b', 'r', 'a', 'r', 'y'])
    ||| ends_with(t, seq!['m', 'o', 'd', 'u', 'l', 'e'])
    ||| ends_with(t, seq!['e', 'x', 'e', 'c', 'u', 't', 'a', 'b', 'l', 'e'])
    ||| ends_with(t, seq!['j', 'a', 'r'])
    ||| ends_with(t, seq!['b', 'e', 'n', 'c', 'h', 'm', 'a', 'r', 'k'])
    ||| ends_with(t, seq!['t', 'e', 's', 't'])
    ||| ends_with(t, seq!['a', 'd', 'd', '_', 'l', 'a', 'n', 'g', 'u', 'a', 'g', 'e', 's'])
    ||| ends_with(
        t,
        seq!['a', 'd', 'd', '_', 't', 'e', 's', 't', '_', 's', 'e', 't', 'u', 'p'],
    )
    ||| ends_with(t, seq!['s', 'u', 'b', 'd', 'i', 'r'])
}

/// An argument list "has a name" when the option is enabled and the text
/// before its `(` ends in a recognized call name.
pub open spec fn spec_has_call_name(t: Seq<char>, cfg: Configuration) -> bool {
    cfg.nowrap_before_name && is_call_name_suffix(t)
}

pub fn has_call_name(t: &Vec<char>, cfg: &Configuration) -> (r: bool)
    ensures
        r == spec_has_call_name(t@, *cfg),
{
    if !cfg.nowrap_before_name {
        return false;
    }
    let p01 = vec!['p', 'r', 'o', 'j', 'e', 'c', 't'];
    let p02 = vec!['d', 'e', 'p', 'e', 'n', 'd', 'e', 'n', 'c', 'y'];
    let p03 = vec!['t', 'a', 'r', 'g', 'e', 't'];
    let p04 = vec!['l', 'i', 'b', 'r', 'a', 'r', 'y'];
    let p05 = vec!['m', 'o', 'd', 'u', 'l', 'e'];
    let p06 = vec!['e', 'x', 'e', 'c', 'u', 't', 'a', 'b', 'l', 'e'];
    let p07 = vec!['j', 'a', 'r'];
    let p08 = vec!['b', 'e', 'n', 'c', 'h', 'm', 'a', 'r', 'k'];
    let p09 = vec!['t', 'e', 's', 't'];
    let p10 = vec!['a', 'd', 'd', '_', 'l', 'a', 'n', 'g', 'u', 'a', 'g', 'e', 's'];
    let p11 = vec!['a', 'd', 'd', '_', 't', 'e', 's', 't', '_', 's', 'e', 't', 'u', 'p'];
    let p12 = vec!['s', 'u', 'b', 'd', 'i', 'r'];
    proof {
        assert(p01@ =~= seq!['p', 'r', 'o', 'j', 'e', 'c', 't']);
        assert(p02@ =~= seq!['d', 'e', 'p', 'e', 'n', 'd', 'e', 'n', 'c', 'y']);
        assert(p03@ =~= seq!['t', 'a', 'r', 'g', 'e', 't']);
        assert(p04@ =~= seq!['l', 'i', 'b', 'r', 'a', 'r', 'y']);
        assert(p05@ =~= seq!['m', 'o', 'd', 'u', 'l', 'e']);
        assert(p06@ =~= seq!['e', 'x', 'e', 'c', 'u', 't', 'a', 'b', 'l', 'e']);
        assert(p07@ =~= seq!['j', 'a', 'r']);
        assert(p08@ =~= seq!['b', 'e', 'n', 'c', 'h', 'm', 'a', 'r', 'k']);
        assert(p09@ =~= seq!['t', 'e', 's', 't']);
        assert(p10@ =~= seq!['a', 'd', 'd', '_', 'l', 'a', 'n', 'g', 'u', 'a', 'g', 'e', 's']);
        assert(p11@ =~= seq!['a', 'd', 'd', '_', 't', 'e', 's', 't', '_', 's', 'e', 't', 'u', 'p']);
        assert(p12@ =~= seq!['s', 'u', 'b', 'd', 'i', 'r']);
    }
    ends_with_chars(t, &p01) || ends_with_chars(t, &p02) || ends_with_chars(t, &p03)
        || ends_with_chars(t, &p04) || ends_with_chars(t, &p05) || ends_with_chars(t, &p06)
        || ends_with_chars(t, &p07) || ends_with_chars(t, &p08) || ends_with_chars(t, &p09)
        || ends_with_chars(t, &p10) || ends_with_chars(t, &p11) || ends_with_chars(t, &p12)
}

} // verus!
