//! Reversal of a vector within its own storage.

use vstd::prelude::*;

verus! {

/// Exchanges the elements at positions `i` and `j`, leaving every other
/// position as it was.
fn swap_positions(v: &mut Vec<char>, i: usize, j: usize)
    requires
        i < old(v)@.len(),
        j < old(v)@.len(),
    ensures
        final(v)@ == old(v)@.update(i as int, old(v)@[j as int]).update(j as int, old(v)@[i as int]),
{
    let a: char = v[i];
    let b: char = v[j];
    v.set(i, b);
    v.set(j, a);
}

/// Reverses `v` by pairwise swaps from both ends towards the middle and hands
/// the same vector back. No second buffer is allocated.
///
/// Only the first half of the positions is visited, so the middle element of
/// an odd-length vector stays where it is and no pair is swapped twice.
pub fn reverse_vec(v: Vec<char>) -> (r: Vec<char>)
    ensures
        r@ == v@.reverse(),
{
    let mut v = v;
    let ghost orig: Seq<char> = v@;
    let l: usize = v.len();
    let half: usize = l / 2;
    let mut start: usize = 0;
    while start < half
        invariant
            l == orig.len(),
            half == l / 2,
            start <= half,
            v@.len() == l,
            forall|k: int| 0 <= k < start ==> v@[k] == orig[l - 1 - k],
            forall|k: int| l - start <= k < l ==> v@[k] == orig[l - 1 - k],
            forall|k: int| start <= k < l - start ==> v@[k] == orig[k],
        decreases half - start,
    {
        let end: usize = l - 1 - start;
        swap_positions(&mut v, start, end);
        start += 1;
    }
    proof {
        assert(v@ =~= orig.reverse());
    }
    v
}

/// Reversal is an involution: reversing a vector and then reversing the
/// result gives back the characters one started with, in the same order.
pub proof fn lemma_reverse_twice(v: Vec<char>, once: Vec<char>, twice: Vec<char>)
    requires
        call_ensures(reverse_vec, (v,), once),
        call_ensures(reverse_vec, (once,), twice),
    ensures
        twice@ == v@,
{
    assert(v@.reverse().reverse() =~= v@);
}

/// Reversing an empty vector gives an empty vector.
pub proof fn lemma_reverse_empty(v: Vec<char>, r: Vec<char>)
    requires
        v@.len() == 0,
        call_ensures(reverse_vec, (v,), r),
    ensures
        r@ == Seq::<char>::empty(),
{
    assert(v@.reverse() =~= Seq::<char>::empty());
}

/// Reversing a vector of one character leaves it unchanged.
pub proof fn lemma_reverse_single(v: Vec<char>, r: Vec<char>)
    requires
        v@.len() == 1,
        call_ensures(reverse_vec, (v,), r),
    ensures
        r@ == v@,
        r@ == seq![v@[0]],
{
    assert(v@.reverse() =~= v@);
    assert(v@ =~= seq![v@[0]]);
}

} // verus!
