//! A generic verified sort over any type with a decidable total preorder:
//! the result is ordered and holds exactly the input's elements.

use vstd::prelude::*;
use vstd::multiset::Multiset;

verus! {

/// A total preorder with an executable decision procedure. Implementors
/// prove totality and transitivity, which is what sorting needs.
pub trait SortOrder: Sized {
    /// The order being sorted by.
    spec fn le(self, other: Self) -> bool;

    /// Decides [`SortOrder::le`].
    fn le_exec(&self, other: &Self) -> (r: bool)
        ensures
            r == self.le(*other),
    ;

    /// The order relates every pair, one way or the other.
    proof fn le_total(a: Self, b: Self)
        ensures
            a.le(b) || b.le(a),
    ;

    /// The order is transitive.
    proof fn le_trans(a: Self, b: Self, c: Self)
        requires
            a.le(b),
            b.le(c),
        ensures
            a.le(c),
    ;
}

/// Every adjacent-or-distant pair of `s` is ordered.
pub open spec fn seq_ordered<T: SortOrder>(s: Seq<T>) -> bool {
    forall|i: int, j: int| 0 <= i < j < s.len() ==> (#[trigger] s[i]).le(#[trigger] s[j])
}

/// Sorts `v`: the result is ordered and is a permutation of `v`.
#[verifier::loop_isolation(false)]
pub fn sort_vec<T: SortOrder>(v: Vec<T>) -> (r: Vec<T>)
    ensures
        seq_ordered(r@),
        r@.to_multiset() == v@.to_multiset(),
        r@.len() == v@.len(),
{
    broadcast use vstd::seq_lib::group_to_multiset_ensures;

    let ghost orig = v@;
    let mut input = v;
    let mut out: Vec<T> = Vec::new();
    proof {
        assert(out@.to_multiset().add(input@.to_multiset()) =~= orig.to_multiset());
    }
    while input.len() > 0
        invariant
            out@.to_multiset().add(input@.to_multiset()) == orig.to_multiset(),
            out@.len() + input@.len() == orig.len(),
            seq_ordered(out@),
            forall|a: int, b: int|
                0 <= a < out@.len() && 0 <= b < input@.len() ==> (#[trigger] out@[a]).le(
                    #[trigger] input@[b],
                ),
        decreases input.len(),
    {
        let n = input.len();
        let mut best: usize = 0;
        proof {
            T::le_total(input@[0], input@[0]);
        }
        let mut i: usize = 1;
        while i < n
            invariant
                0 <= best < i <= n,
                n == input@.len(),
                forall|j: int| 0 <= j < i ==> input@[best as int].le(#[trigger] input@[j]),
            decreases n - i,
        {
            if !input[best].le_exec(&input[i]) {
                proof {
                    T::le_total(input@[best as int], input@[i as int]);
                    assert forall|j: int| 0 <= j < i + 1 implies input@[i as int].le(
                        #[trigger] input@[j],
                    ) by {
                        if j < i {
                            T::le_trans(input@[i as int], input@[best as int], input@[j]);
                        } else {
                            T::le_total(input@[i as int], input@[i as int]);
                        }
                    }
                }
                best = i;
            }
            i = i + 1;
        }
        let ghost pre_in = input@;
        let ghost pre_out = out@;
        let x = input.remove(best);
        out.push(x);
        proof {
            assert(pre_in.remove(best as int).to_multiset() =~= pre_in.to_multiset().remove(x));
            assert(pre_out.push(x).to_multiset() =~= pre_out.to_multiset().insert(x));
            assert(pre_in.to_multiset().count(x) > 0);
            assert(out@.to_multiset().add(input@.to_multiset()) =~= orig.to_multiset()) by {
                assert(out@.to_multiset() =~= pre_out.to_multiset().insert(x));
                assert(input@.to_multiset() =~= pre_in.to_multiset().remove(x));
            }
            assert forall|a: int, b: int|
                0 <= a < b < out@.len() implies (#[trigger] out@[a]).le(#[trigger] out@[b]) by {
                if b == out@.len() - 1 {
                    assert(out@[b] == x);
                    assert(pre_out[a].le(pre_in[best as int]));
                }
            }
            assert forall|a: int, b: int|
                0 <= a < out@.len() && 0 <= b < input@.len() implies (#[trigger] out@[a]).le(
                #[trigger] input@[b],
            ) by {
                let old_b: int = if b < best { b } else { b + 1 };
                assert(input@[b] == pre_in[old_b]);
                if a < out@.len() - 1 {
                    assert(pre_out[a].le(pre_in[old_b]));
                } else {
                    assert(out@[a] == x);
                    assert(pre_in[best as int].le(pre_in[old_b]));
                }
            }
        }
    }
    proof {
        assert(input@.to_multiset() =~= Multiset::<T>::empty());
        assert(out@.to_multiset().add(Multiset::<T>::empty()) =~= out@.to_multiset());
        vstd::seq_lib::to_multiset_len(out@);
        vstd::seq_lib::to_multiset_len(orig);
    }
    out
}

} // verus!
