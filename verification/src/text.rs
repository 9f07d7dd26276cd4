//! Comparing and cutting strings.

use vstd::prelude::*;
use vstd::string::StrSliceExecFns;

verus! {

/// Whether two strings hold the same characters.
pub fn same_text(a: &str, b: &str) -> (r: bool)
    ensures
        r == (a@ == b@),
{
    let n = a.unicode_len();
    if n != b.unicode_len() {
        return false;
    }
    let mut i: usize = 0;
    while i < n
        invariant
            i <= n,
            n == a@.len(),
            n == b@.len(),
            forall|j: int| 0 <= j < i ==> a@[j] == b@[j],
        decreases n - i,
    {
        if a.get_char(i) != b.get_char(i) {
            return false;
        }
        i += 1;
    }
    assert(a@ =~= b@);
    true
}

/// The place of the first comma of `s`, or the length of `s` where it has
/// none.
pub open spec fn first_comma(s: Seq<char>) -> int
    decreases s.len(),
{
    if s.len() == 0 || s[0] == ',' {
        0
    } else {
        1 + first_comma(s.skip(1))
    }
}

/// The first comma is where no comma stands before and one stands at, or
/// the text ends.
pub proof fn lemma_first_comma(s: Seq<char>, at: int)
    requires
        0 <= at <= s.len(),
        forall|j: int| 0 <= j < at ==> s[j] != ',',
        at == s.len() || s[at] == ',',
    ensures
        first_comma(s) == at,
    decreases s.len(),
{
    if s.len() != 0 && s[0] != ',' {
        assert(at > 0);
        let rest = s.skip(1);
        assert(forall|j: int| 0 <= j < at - 1 ==> rest[j] == s[j + 1]);
        lemma_first_comma(rest, at - 1);
    }
}

} // verus!
