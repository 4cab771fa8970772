//! Keywords and unit names are matched without regard to ASCII case.

use vstd::prelude::*;

verus! {

/// The character `c`, in lower case if it is an ASCII capital.
pub open spec fn ascii_lower(c: char) -> char {
    if 'A' <= c <= 'Z' {
        ((c as u8) + 32) as char
    } else {
        c
    }
}

/// The string `s` with every ASCII capital in lower case.
pub open spec fn lowered(s: Seq<char>) -> Seq<char> {
    Seq::new(s.len(), |i: int| ascii_lower(s[i]))
}

/// The lower-case form of an ASCII capital; any other character unchanged.
pub fn to_ascii_lower(c: char) -> (r: char)
    ensures
        r == ascii_lower(c),
{
    if 'A' <= c && c <= 'Z' {
        ((c as u8) + 32) as char
    } else {
        c
    }
}

/// Whether `s`, taken to lower case, is the string `keyword`.
pub fn matches_keyword(s: &str, keyword: &str) -> (r: bool)
    ensures
        r == (lowered(s@) == keyword@),
{
    let n = s.unicode_len();
    if n != keyword.unicode_len() {
        assert(lowered(s@).len() != keyword@.len());
        return false;
    }
    let mut i: usize = 0;
    while i < n
        invariant
            i <= n,
            n == s@.len(),
            n == keyword@.len(),
            forall|j: int| 0 <= j < i ==> ascii_lower(s@[j]) == keyword@[j],
        decreases n - i,
    {
        if to_ascii_lower(s.get_char(i)) != keyword.get_char(i) {
            assert(lowered(s@)[i as int] != keyword@[i as int]);
            return false;
        }
        i = i + 1;
    }
    assert(lowered(s@) =~= keyword@);
    true
}

} // verus!
