//! Strings as sequences of characters.
use vstd::prelude::*;

verus! {

/// Appends one character to `s` by `String::push`, which this contract
/// describes: the string afterwards is the string before followed by `c`.
#[verifier::external_body]
pub(crate) fn push_char(s: &mut String, c: char)
    ensures
        final(s)@ == old(s)@.push(c),
{
    s.push(c)
}

/// The characters of `s`, in order.
pub fn to_chars(s: &str) -> (v: Vec<char>)
    ensures
        v@ == s@,
{
    let mut v: Vec<char> = Vec::new();
    for c in it: s.chars()
        invariant
            it.seq() == s@,
            v@ == it.seq().take(it.index() as int),
    {
        v.push(c);
    }
    v
}

/// The string made of the characters of `v`, in order.
pub fn from_chars(v: &Vec<char>) -> (s: String)
    ensures
        s@ == v@,
{
    let mut s = String::new();
    let mut i: usize = 0;
    while i < v.len()
        invariant
            i <= v.len(),
            s@ == v@.take(i as int),
        decreases v.len() - i,
    {
        push_char(&mut s, v[i]);
        i += 1;
    }
    s
}

/// Appends the characters `src[from..to]` to `dst`.
pub(crate) fn push_range(dst: &mut Vec<char>, src: &Vec<char>, from: usize, to: usize)
    requires
        from <= to <= src.len(),
    ensures
        final(dst)@ == old(dst)@ + src@.subrange(from as int, to as int),
{
    let mut i: usize = from;
    while i < to
        invariant
            from <= i <= to <= src.len(),
            dst@ == old(dst)@ + src@.subrange(from as int, i as int),
        decreases to - i,
    {
        dst.push(src[i]);
        i += 1;
    }
}

/// Whether `a` and `b` hold the same characters.
pub fn same_text(a: &str, b: &str) -> (same: bool)
    ensures
        same == (a@ == b@),
{
    let left = a.to_owned();
    let right = b.to_owned();
    left == right
}

} // verus!
