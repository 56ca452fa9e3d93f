use vstd::prelude::*;
use vstd::string::*;

verus! {

/// Character-wise equality of two string slices.
pub fn str_eq(a: &str, b: &str) -> (res: bool)
    ensures
        res == (a@ == b@),
{
    let n = a.unicode_len();
    let m = b.unicode_len();
    if n != m {
        return false;
    }
    let mut i: usize = 0;
    while i < n
        invariant
            n == a@.len(),
            m == b@.len(),
            n == m,
            i <= n,
            forall|j: int| 0 <= j < i ==> a@[j] == b@[j],
        decreases n - i,
    {
        if a.get_char(i) != b.get_char(i) {
            return false;
        }
        i = i + 1;
    }
    assert(a@ =~= b@);
    true
}


/// Whether `s` begins with `p`.
pub fn starts_with(s: &str, p: &str) -> (res: bool)
    ensures
        res == (p@.len() <= s@.len() && s@.subrange(0, p@.len() as int) == p@),
{
    let n = s.unicode_len();
    let m = p.unicode_len();
    if m > n {
        return false;
    }
    let mut i: usize = 0;
    while i < m
        invariant
            n == s@.len(),
            m == p@.len(),
            m <= n,
            i <= m,
            forall|j: int| 0 <= j < i ==> s@[j] == p@[j],
        decreases m - i,
    {
        if s.get_char(i) != p.get_char(i) {
            assert(s@.subrange(0, m as int)[i as int] != p@[i as int]);
            return false;
        }
        i = i + 1;
    }
    assert(s@.subrange(0, m as int) =~= p@);
    true
}

/// `s` with every leading repetition of `p` removed (`s` itself when `p` is
/// empty).
pub open spec fn trim_start_all(s: Seq<char>, p: Seq<char>) -> Seq<char>
    decreases s.len(),
{
    if p.len() > 0 && p.len() <= s.len() && s.subrange(0, p.len() as int) == p {
        trim_start_all(s.skip(p.len() as int), p)
    } else {
        s
    }
}

/// Removes every leading repetition of `p` from `s`.
pub fn trim_start_matches<'a>(s: &'a str, p: &str) -> (res: &'a str)
    ensures
        res@ == trim_start_all(s@, p@),
{
    let m = p.unicode_len();
    if m == 0 {
        return s;
    }
    let mut cur: &'a str = s;
    while starts_with(cur, p)
        invariant
            m == p@.len(),
            m > 0,
            trim_start_all(cur@, p@) == trim_start_all(s@, p@),
        decreases cur@.len(),
    {
        let n = cur.unicode_len();
        let next = cur.substring_char(m, n);
        assert(next@ =~= cur@.skip(m as int));
        cur = next;
    }
    cur
}

/// `s` with `p` removed from its front when it starts with `p`, else `s`.
pub open spec fn strip_prefix_or_self(s: Seq<char>, p: Seq<char>) -> Seq<char> {
    if p.len() <= s.len() && s.subrange(0, p.len() as int) == p {
        s.skip(p.len() as int)
    } else {
        s
    }
}

/// Removes one leading `p` from `s` if present.
pub fn strip_prefix<'a>(s: &'a str, p: &str) -> (res: &'a str)
    ensures
        res@ == strip_prefix_or_self(s@, p@),
{
    if starts_with(s, p) {
        let m = p.unicode_len();
        let n = s.unicode_len();
        let r = s.substring_char(m, n);
        assert(r@ =~= s@.skip(m as int));
        r
    } else {
        s
    }
}

/// A new string holding `a` followed by `b`.
pub fn concat_str(a: &str, b: &str) -> (res: String)
    ensures
        res@ == a@ + b@,
{
    let mut r = String::from_str(a);
    r.append(b);
    r
}

} // verus!
