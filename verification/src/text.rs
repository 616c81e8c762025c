//! Strings as sequences of characters.

use vstd::prelude::*;
use vstd::std_specs::iter::IteratorSpec;

verus! {

/// Whether `s` begins with `prefix`.
pub fn starts_with(s: &str, prefix: &str) -> (b: bool)
    ensures
        b == prefix@.is_prefix_of(s@),
{
    let mut rest = s.chars();
    let mut wanted = prefix.chars();
    let ghost mut n: int = 0;
    loop
        invariant
            0 <= n <= prefix@.len(),
            n <= s@.len(),
            rest.remaining() == s@.skip(n),
            wanted.remaining() == prefix@.skip(n),
            s@.take(n) == prefix@.take(n),
        decreases prefix@.len() - n,
    {
        match wanted.next() {
            None => {
                return true;
            },
            Some(p) => {
                match rest.next() {
                    None => {
                        return false;
                    },
                    Some(c) => {
                        if c != p {
                            return false;
                        }
                    },
                }
            },
        }
        proof {
            n = n + 1;
        }
    }
}

/// Whether `a` and `b` hold the same characters.
pub fn same_text(a: &str, b: &str) -> (eq: bool)
    ensures
        eq == (a@ == b@),
{
    let equal = starts_with(a, b) && starts_with(b, a);
    proof {
        if a@.is_prefix_of(b@) && b@.is_prefix_of(a@) {
            assert(b@.subrange(0, a@.len() as int) =~= b@);
        }
    }
    equal
}

} // verus!
