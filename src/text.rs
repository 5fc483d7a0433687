//! Small verified helpers on character strings.
use vstd::prelude::*;

verus! {

/// Whether `pre` is a prefix of `s`, character by character.
pub fn starts_with(s: &str, pre: &str) -> (r: bool)
    ensures
        r == pre@.is_prefix_of(s@),
{
    let n = s.unicode_len();
    let m = pre.unicode_len();
    if m > n {
        return false;
    }
    let mut i: usize = 0;
    while i < m
        invariant
            m == pre@.len(),
            n == s@.len(),
            m <= n,
            i <= m,
            forall|k: int| 0 <= k < i ==> pre@[k] == s@[k],
        decreases m - i,
    {
        if pre.get_char(i) != s.get_char(i) {
            return false;
        }
        i = i + 1;
    }
    assert(pre@ =~= s@.subrange(0, m as int));
    true
}

/// Whether `a` and `b` hold the same characters.
pub fn same(a: &str, b: &str) -> (r: bool)
    ensures
        r == (a@ == b@),
{
    let n = a.unicode_len();
    if n != b.unicode_len() {
        return false;
    }
    let mut i: usize = 0;
    while i < n
        invariant
            n == a@.len(),
            n == b@.len(),
            i <= n,
            forall|k: int| 0 <= k < i ==> a@[k] == b@[k],
        decreases n - i,
    {
        if a.get_char(i) != b.get_char(i) {
            return false;
        }
        i = i + 1;
    }
    assert(a@ =~= b@);
    true
}

/// An owned copy of the characters `from..to` of `s`.
pub fn slice_owned(s: &str, from: usize, to: usize) -> (r: String)
    requires
        from <= to <= s@.len(),
    ensures
        r@ == s@.subrange(from as int, to as int),
{
    String::from_str(s.substring_char(from, to))
}

} // verus!
