//! Splitting a total request budget across a fixed number of workers as
//! evenly as possible: with `base = total / concurrency` and
//! `rem = total % concurrency`, the first `rem` workers get `base + 1`
//! requests and the rest get `base`, so the shares sum to `total` and no
//! two shares differ by more than one.

use vstd::prelude::*;

verus! {

/// The number of requests assigned to worker `i` out of `concurrency`
/// workers sharing `total` requests.
pub open spec fn share(total: int, concurrency: int, i: int) -> int {
    total / concurrency + if i < total % concurrency {
        1int
    } else {
        0int
    }
}

/// Sum of a sequence of usize counts.
pub open spec fn sum_counts(s: Seq<usize>) -> int
    decreases s.len(),
{
    if s.len() == 0 {
        0
    } else {
        sum_counts(s.drop_last()) + s.last()
    }
}

/// Per-worker request counts for count mode.
pub fn partition_requests(total: usize, concurrency: usize) -> (r: Vec<usize>)
    requires
        concurrency >= 1,
    ensures
        r@.len() == concurrency,
        forall|i: int|
            0 <= i < concurrency ==> #[trigger] r@[i] == share(
                total as int,
                concurrency as int,
                i,
            ),
        sum_counts(r@) == total,
        forall|i: int, j: int|
            0 <= i < concurrency && 0 <= j < concurrency ==> #[trigger] r@[i] - #[trigger] r@[j]
                <= 1,
{
    let base: usize = total / concurrency;
    let rem: usize = total % concurrency;
    proof {
        vstd::arithmetic::div_mod::lemma_fundamental_div_mod(total as int, concurrency as int);
    }
    let mut r: Vec<usize> = Vec::new();
    let mut i: usize = 0;
    while i < concurrency
        invariant
            concurrency >= 1,
            base == total as int / concurrency as int,
            rem == total as int % concurrency as int,
            total as int == concurrency as int * base + rem,
            0 <= rem < concurrency,
            0 <= i <= concurrency,
            r@.len() == i,
            forall|k: int|
                0 <= k < i ==> #[trigger] r@[k] == share(total as int, concurrency as int, k),
            sum_counts(r@) == if i <= rem {
                i as int * (base + 1)
            } else {
                rem as int * (base + 1) + (i - rem) * base
            },
            sum_counts(r@) <= total,
        decreases concurrency - i,
    {
        let ghost prev = r@;
        let ghost old_sum = sum_counts(r@);
        if i < rem {
            assert(i as int * (base + 1) + (base + 1) <= total as int) by (nonlinear_arith)
                requires
                    total as int == concurrency as int * base + rem,
                    0 <= i < rem < concurrency,
                    base >= 0,
            ;
            r.push(base + 1);
            proof {
                assert(r@.drop_last() =~= prev);
                assert((i + 1) as int * (base + 1) == i as int * (base + 1) + (base + 1))
                    by (nonlinear_arith);
            }
        } else {
            assert(rem as int * (base + 1) + (i - rem) * base + base <= total as int)
                by (nonlinear_arith)
                requires
                    total as int == concurrency as int * base + rem,
                    0 <= rem <= i < concurrency,
                    base >= 0,
            ;
            r.push(base);
            proof {
                assert(r@.drop_last() =~= prev);
                assert(((i + 1) - rem) * base == (i - rem) * base + base) by (nonlinear_arith);
            }
        }
        i += 1;
    }
    proof {
        if rem < concurrency {
            assert(rem as int * (base + 1) + (concurrency - rem) * base == concurrency as int
                * base + rem) by (nonlinear_arith);
        }
    }
    r
}

} // verus!
