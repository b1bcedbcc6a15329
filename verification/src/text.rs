use vstd::prelude::*;

use crate::model::{sp, trim_newlines, trim_spaces};
use vstd::string::StrSliceExecFns;

verus! {

/// Relies on std's `String::push`: appends the given character to the end of
/// the string.
pub assume_specification[ String::push ](s: &mut String, ch: char)
    ensures
        final(s)@ == old(s)@.push(ch),
;

/// Append a copy of `src` to `dst`.
pub fn extend_from(dst: &mut Vec<char>, src: &Vec<char>)
    ensures
        final(dst)@ == old(dst)@ + src@,
{
    let n = src.len();
    let mut k: usize = 0;
    while k < n
        invariant
            k <= n,
            n == src@.len(),
            dst@ == old(dst)@ + src@.take(k as int),
        decreases n - k,
    {
        dst.push(src[k]);
        proof {
            assert(old(dst)@ + src@.take(k as int) + seq![src@[k as int]] =~= old(dst)@
                + src@.take(k + 1));
        }
        k += 1;
    }
    proof {
        assert(old(dst)@ + src@.take(n as int) =~= old(dst)@ + src@);
    }
}

/// `n` spaces.
pub fn make_spaces(n: usize) -> (r: Vec<char>)
    ensures
        r@ == sp(n as int),
{
    let mut v: Vec<char> = Vec::new();
    let mut k: usize = 0;
    while k < n
        invariant
            k <= n,
            v@ == sp(k as int),
        decreases n - k,
    {
        v.push(' ');
        k += 1;
    }
    v
}

/// Drop trailing spaces in place.
pub fn trim_trailing_spaces(v: &mut Vec<char>)
    ensures
        final(v)@ == trim_spaces(old(v)@),
{
    loop
        invariant
            trim_spaces(v@) == trim_spaces(old(v)@),
        decreases v@.len(),
    {
        let n = v.len();
        if n == 0 {
            return ;
        }
        if v[n - 1] != ' ' {
            return ;
        }
        let ghost prev = v@;
        v.pop();
        proof {
            assert(v@ =~= prev.drop_last());
        }
    }
}

/// Drop trailing newlines in place.
pub fn trim_trailing_newlines(v: &mut Vec<char>)
    ensures
        final(v)@ == trim_newlines(old(v)@),
{
    loop
        invariant
            trim_newlines(v@) == trim_newlines(old(v)@),
        decreases v@.len(),
    {
        let n = v.len();
        if n == 0 {
            return ;
        }
        if v[n - 1] != '\n' {
            return ;
        }
        let ghost prev = v@;
        v.pop();
        proof {
            assert(v@ =~= prev.drop_last());
        }
    }
}

/// The characters of a text, in order.
pub fn chars_of(text: &str) -> (r: Vec<char>)
    ensures
        r@ == text@,
{
    let n = text.unicode_len();
    let mut v: Vec<char> = Vec::with_capacity(n);
    let mut k: usize = 0;
    while k < n
        invariant
            k <= n,
            n == text@.len(),
            v@ == text@.take(k as int),
        decreases n - k,
    {
        v.push(text.get_char(k));
        proof {
            assert(v@ =~= text@.take(k + 1));
        }
        k += 1;
    }
    proof {
        assert(text@.take(n as int) =~= text@);
    }
    v
}

/// A string holding exactly the given characters, in order.
pub fn string_of(v: &Vec<char>) -> (r: String)
    ensures
        r@ == v@,
{
    let n = v.len();
    let mut s = String::new();
    let mut k: usize = 0;
    while k < n
        invariant
            k <= n,
            n == v@.len(),
            s@ == v@.take(k as int),
        decreases n - k,
    {
        s.push(v[k]);
        proof {
            assert(s@ =~= v@.take(k + 1));
        }
        k += 1;
    }
    proof {
        assert(v@.take(n as int) =~= v@);
    }
    s
}

} // verus!
