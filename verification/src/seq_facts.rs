//! Facts about sequences that the proofs of this crate share.

use vstd::prelude::*;

verus! {

/// A sequence with one more element contains exactly what it contained, and
/// that element.
pub proof fn lemma_push_contains<A>(s: Seq<A>, x: A, n: A)
    ensures
        s.push(x).contains(n) <==> (s.contains(n) || n == x),
{
    if s.contains(n) {
        let i = choose|i: int| 0 <= i < s.len() && s[i] == n;
        assert(s.push(x)[i] == n);
    }
    if n == x {
        assert(s.push(x)[s.len() as int] == n);
    }
    if s.push(x).contains(n) && n != x {
        let i = choose|i: int| 0 <= i < s.len() + 1 && s.push(x)[i] == n;
        assert(s[i] == n);
    }
}

} // verus!
