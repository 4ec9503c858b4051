//! Text as sequences of characters: the few operations on `str` that the
//! rest of the crate needs, each with its meaning on the string's view.

use vstd::prelude::*;
use vstd::string::*;

verus! {

/// `needle` stands in `s` at position `at`.
pub open spec fn occurs_at(s: Seq<char>, needle: Seq<char>, at: int) -> bool {
    0 <= at && at + needle.len() <= s.len() && s.subrange(at, at + needle.len()) == needle
}

/// `needle` stands somewhere in `s`.
pub open spec fn occurs_in(s: Seq<char>, needle: Seq<char>) -> bool {
    exists|at: int| occurs_at(s, needle, at)
}

/// `s` ends with `suffix`.
pub open spec fn ends_with(s: Seq<char>, suffix: Seq<char>) -> bool {
    suffix.len() <= s.len() && s.subrange(s.len() - suffix.len(), s.len() as int) == suffix
}

/// `s` begins with `prefix`.
pub open spec fn starts_with(s: Seq<char>, prefix: Seq<char>) -> bool {
    prefix.len() <= s.len() && s.subrange(0, prefix.len() as int) == prefix
}

/// `s` with every hyphen turned into an underscore.
pub open spec fn underscored(s: Seq<char>) -> Seq<char> {
    Seq::new(
        s.len(),
        |i: int|
            if s[i] == '-' {
                '_'
            } else {
                s[i]
            },
    )
}

/// Whether two strings hold the same characters.
pub fn equal(a: &str, b: &str) -> (same: bool)
    ensures
        same == (a@ == b@),
{
    let x = a.to_owned();
    let y = b.to_owned();
    x == y
}

/// `a` followed by `b`.
pub fn concat(a: &str, b: &str) -> (joined: String)
    ensures
        joined@ == a@ + b@,
{
    a.to_owned().concat(b)
}

/// Whether `needle` stands somewhere in `s`.
pub fn contains(s: &str, needle: &str) -> (found: bool)
    ensures
        found == occurs_in(s@, needle@),
{
    let n: usize = s.unicode_len();
    let m: usize = needle.unicode_len();
    if m > n {
        assert forall|at: int| !occurs_at(s@, needle@, at) by {}
        return false;
    }
    let last: usize = n - m;
    let mut at: usize = 0;
    while at < last
        invariant
            n == s@.len(),
            m == needle@.len(),
            last == n - m,
            at <= last,
            forall|k: int| 0 <= k < at ==> !occurs_at(s@, needle@, k),
        decreases last - at,
    {
        if equal(s.substring_char(at, at + m), needle) {
            assert(occurs_at(s@, needle@, at as int));
            return true;
        }
        at = at + 1;
    }
    let found = equal(s.substring_char(last, n), needle);
    if found {
        assert(occurs_at(s@, needle@, last as int));
    } else {
        assert forall|k: int| !occurs_at(s@, needle@, k) by {}
    }
    found
}

/// Whether `s` ends with `suffix`.
pub fn has_suffix(s: &str, suffix: &str) -> (found: bool)
    ensures
        found == ends_with(s@, suffix@),
{
    let n: usize = s.unicode_len();
    let m: usize = suffix.unicode_len();
    if m > n {
        return false;
    }
    equal(s.substring_char(n - m, n), suffix)
}

/// Whether `s` begins with `prefix`.
pub fn has_prefix(s: &str, prefix: &str) -> (found: bool)
    ensures
        found == starts_with(s@, prefix@),
{
    let n: usize = s.unicode_len();
    let m: usize = prefix.unicode_len();
    if m > n {
        return false;
    }
    equal(s.substring_char(0, m), prefix)
}

/// A copy of `s` with every hyphen turned into an underscore.
pub fn underscore(s: &str) -> (out: String)
    ensures
        out@ == underscored(s@),
{
    let n: usize = s.unicode_len();
    let mut out = String::new();
    let mut i: usize = 0;
    while i < n
        invariant
            n == s@.len(),
            i <= n,
            out@ == underscored(s@).subrange(0, i as int),
        decreases n - i,
    {
        if s.get_char(i) == '-' {
            proof {
                reveal_strlit("_");
            }
            out.append("_");
            assert("_"@ =~= seq!['_']);
        } else {
            out.append(s.substring_char(i, i + 1));
            assert(s@.subrange(i as int, i + 1) =~= seq![s@[i as int]]);
        }
        assert(out@ =~= underscored(s@).subrange(0, i + 1));
        i = i + 1;
    }
    assert(underscored(s@).subrange(0, n as int) =~= underscored(s@));
    out
}

} // verus!
