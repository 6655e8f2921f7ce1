//! Closures as values: a predicate passed into a filter, and a multiplier
//! handed back to the caller.

use vstd::prelude::*;

verus! {

/// The elements of `s` kept by a mask: `keep[i]` decides `s[i]`.
pub open spec fn mask_filter<T>(s: Seq<T>, keep: Seq<bool>) -> Seq<T>
    decreases s.len(),
{
    if s.len() == 0 {
        Seq::empty()
    } else {
        mask_filter(s.drop_last(), keep.drop_last()) + (if keep.last() {
            seq![s.last()]
        } else {
            Seq::empty()
        })
    }
}

/// Keeps, in order, exactly the elements the predicate approves: the result
/// is `nums` filtered through some mask of answers the predicate can give.
pub fn apply_filter<F: Fn(i32) -> bool>(nums: &[i32], predicate: F) -> (r: Vec<i32>)
    requires
        forall|i: int| 0 <= i < nums@.len() ==> call_requires(predicate, (#[trigger] nums@[i],)),
    ensures
        exists|keep: Seq<bool>|
            {
                &&& keep.len() == nums@.len()
                &&& (forall|i: int|
                    0 <= i < nums@.len() ==> call_ensures(
                        predicate,
                        (nums@[i],),
                        #[trigger] keep[i],
                    ))
                &&& r@ == mask_filter(nums@, keep)
            },
{
    let ghost mut keep: Seq<bool> = Seq::empty();
    let mut r: Vec<i32> = Vec::new();
    let n = nums.len();
    let mut i: usize = 0;
    while i < n
        invariant
            i <= n == nums@.len(),
            keep.len() == i,
            forall|k: int| 0 <= k < nums@.len() ==> call_requires(predicate, (#[trigger] nums@[k],)),
            forall|k: int|
                0 <= k < i ==> call_ensures(predicate, (nums@[k],), #[trigger] keep[k]),
            r@ == mask_filter(nums@.take(i as int), keep),
        decreases n - i,
    {
        let x = nums[i];
        let verdict = predicate(x);
        if verdict {
            r.push(x);
        }
        proof {
            let prev = keep;
            keep = keep.push(verdict);
            assert(nums@.take(i + 1).drop_last() =~= nums@.take(i as int));
            assert(keep.drop_last() =~= prev);
            assert(nums@.take(i + 1).last() == nums@[i as int]);
            if verdict {
                assert(mask_filter(nums@.take(i as int), prev) + seq![nums@[i as int]]
                    =~= mask_filter(nums@.take(i as int), prev).push(nums@[i as int]));
            } else {
                assert(mask_filter(nums@.take(i as int), prev) + Seq::<i32>::empty()
                    =~= mask_filter(nums@.take(i as int), prev));
            }
        }
        i = i + 1;
    }
    proof {
        assert(nums@.take(nums@.len() as int) =~= nums@);
    }
    r
}

/// A multiplier by a fixed factor, handed back to the caller as a value.
pub struct Multiplier {
    /// The fixed factor.
    pub factor: i32,
}

impl Multiplier {
    /// Multiplies the argument by the stored factor.
    pub fn apply(&self, x: i32) -> (r: i32)
        requires
            i32::MIN <= self.factor * x <= i32::MAX,
        ensures
            r == self.factor * x,
    {
        self.factor * x
    }
}

/// Captures `factor` in a value that multiplies by it.
pub fn make_multiplier(factor: i32) -> (m: Multiplier)
    ensures
        m.factor == factor,
{
    Multiplier { factor }
}

} // verus!
