//! Fragment planner: partition a file of known total size into
//! contiguous range fragments of bounded length.

use vstd::prelude::*;
use crate::model::{Fragment, FragmentKey, FragmentState};

verus! {

/// Number of fragments planned for `total` bytes with chunk limit
/// `chunk`: one sentinel for an empty file, else the rounded-up
/// quotient.
pub open spec fn planned_count(total: int, chunk: int) -> int {
    if total == 0 {
        1
    } else {
        (total + chunk - 1) / chunk
    }
}

/// Length of planned fragment `i`: `chunk`, except that the tail
/// fragment only reaches to `total`.
pub open spec fn planned_len(total: int, chunk: int, i: int) -> int {
    if total - i * chunk < chunk {
        total - i * chunk
    } else {
        chunk
    }
}

/// The fragment the planner yields at position `i`: offset `i * chunk`,
/// pending, with no retries recorded.
pub open spec fn planned_fragment(total: int, chunk: int, i: int) -> Fragment {
    Fragment {
        key: FragmentKey::Range {
            offset: (i * chunk) as u64,
            len: planned_len(total, chunk, i) as u64,
        },
        state: FragmentState::Missing,
        retry: 0,
    }
}

/// The whole shape of a plan for `total` bytes under chunk limit
/// `chunk`.
pub open spec fn is_planned(total: int, chunk: int, r: Seq<Fragment>) -> bool {
    &&& r.len() == planned_count(total, chunk)
    &&& forall|i: int| 0 <= i < r.len() ==> r[i] == planned_fragment(total, chunk, i)
}

/// Sum of the planned lengths of the first `n` fragments.
pub open spec fn planned_prefix_bytes(total: int, chunk: int, n: int) -> int
    decreases n,
{
    if n <= 0 {
        0
    } else {
        planned_prefix_bytes(total, chunk, n - 1) + planned_len(total, chunk, n - 1)
    }
}

/// Partition `[0, total)` into range fragments of at most `chunk_size`
/// bytes each; a zero total yields the single whole-file sentinel
/// `Range { offset: 0, len: 0 }`.
pub fn plan_ranges(total: u64, chunk_size: u64) -> (r: Vec<Fragment>)
    requires
        chunk_size >= 1,
    ensures
        is_planned(total as int, chunk_size as int, r@),
{
    let ghost t = total as int;
    let ghost c = chunk_size as int;
    let mut frags: Vec<Fragment> = Vec::new();
    if total == 0 {
        frags.push(Fragment {
            key: FragmentKey::Range { offset: 0, len: 0 },
            state: FragmentState::Missing,
            retry: 0,
        });
        assert(frags@[0] == planned_fragment(t, c, 0));
        return frags;
    }

    let mut offset: u64 = 0;
    while offset < total
        invariant
            chunk_size >= 1,
            total > 0,
            t == total as int,
            c == chunk_size as int,
            offset <= total,
            offset as int == if frags@.len() * c <= t {
                frags@.len() * c
            } else {
                t
            },
            frags@.len() >= 1 ==> (frags@.len() - 1) * c < t,
            forall|i: int| 0 <= i < frags@.len() ==> frags@[i] == planned_fragment(t, c, i),
        decreases total - offset,
    {
        let ghost k = frags@.len() as int;
        proof {
            // The loop runs only while `offset < total`, so the cap in the
            // offset invariant is not yet reached.
            if k * c > t {
                assert(offset == total);
            }
            assert(offset as int == k * c);
        }
        let remaining = total - offset;
        let len = if remaining < chunk_size {
            remaining
        } else {
            chunk_size
        };
        assert(len as int == planned_len(t, c, k));
        frags.push(Fragment {
            key: FragmentKey::Range { offset, len },
            state: FragmentState::Missing,
            retry: 0,
        });
        offset = offset + len;
        proof {
            assert((k + 1) * c == k * c + c) by (nonlinear_arith);
            assert(frags@[k] == planned_fragment(t, c, k));
        }
    }

    proof {
        let n = frags@.len() as int;
        assert(offset == total);
        assert(n >= 1);
        if n * c <= t {
            // The final offset reached exactly `n * c`, so `total` is a
            // multiple of the chunk size.
            assert(t == n * c);
            vstd::arithmetic::div_mod::lemma_fundamental_div_mod_converse(
                t + c - 1, c, n, c - 1);
        } else {
            assert((n - 1) * c < t);
            assert((n - 1) * c == n * c - c) by (nonlinear_arith);
            vstd::arithmetic::div_mod::lemma_fundamental_div_mod_converse(
                t + c - 1, c, n, t + c - 1 - n * c);
        }
        assert(n == planned_count(t, c));
    }
    frags
}

/// Law: for a non-empty file the plan is a sequence of contiguous,
/// non-overlapping intervals that cover `[0, total)` in offset order:
/// the first starts at zero, each fragment starts where the previous
/// one ends, every length is positive and at most `chunk`, and the sum
/// of the lengths is exactly `total`.
pub proof fn lemma_plan_covers(total: int, chunk: int, r: Seq<Fragment>)
    requires
        total > 0,
        chunk >= 1,
        is_planned(total, chunk, r),
    ensures
        r.len() == (total + chunk - 1) / chunk,
        r[0].key == (FragmentKey::Range { offset: 0u64, len: planned_len(total, chunk, 0) as u64 }),
        forall|i: int| 0 <= i < r.len() ==> 0 < #[trigger] planned_len(total, chunk, i) <= chunk,
        forall|i: int| 0 <= i < r.len() ==> r[i].key == (FragmentKey::Range {
            offset: planned_prefix_bytes(total, chunk, i) as u64,
            len: planned_len(total, chunk, i) as u64,
        }),
        planned_prefix_bytes(total, chunk, r.len() as int) == total,
{
    let n = r.len() as int;
    lemma_count_brackets_total(total, chunk);
    lemma_planned_offsets(total, chunk, n);
    assert(0 * chunk == 0) by (nonlinear_arith);
    assert forall|i: int| 0 <= i < n implies 0 < #[trigger] planned_len(total, chunk, i) <= chunk by {
        lemma_planned_len_bounds(total, chunk, n, i);
    }
    assert forall|i: int| 0 <= i < n implies r[i].key == (FragmentKey::Range {
        offset: planned_prefix_bytes(total, chunk, i) as u64,
        len: planned_len(total, chunk, i) as u64,
    }) by {
        lemma_planned_offsets(total, chunk, i);
        lemma_planned_len_bounds(total, chunk, n, i);
    }
}

/// The prefix byte sums of a plan advance by whole chunks while they
/// stay under `total`, and the sum over all `planned_count` fragments
/// is exactly `total`.
pub proof fn lemma_planned_offsets(total: int, chunk: int, n: int)
    requires
        total > 0,
        chunk >= 1,
        0 <= n <= planned_count(total, chunk),
    ensures
        planned_prefix_bytes(total, chunk, n) == if n * chunk <= total {
            n * chunk
        } else {
            total
        },
    decreases n,
{
    if n == 0 {
        assert(n * chunk == 0) by (nonlinear_arith)
            requires
                n == 0,
        ;
    } else {
        lemma_planned_offsets(total, chunk, n - 1);
        lemma_count_brackets_total(total, chunk);
        let cnt = planned_count(total, chunk);
        assert((n - 1) * chunk <= (cnt - 1) * chunk) by (nonlinear_arith)
            requires
                chunk >= 1,
                n - 1 <= cnt - 1,
        ;
        // `(n - 1) * chunk < total`, so the prefix before this step is
        // exactly `(n - 1) * chunk` and the step adds `planned_len(n - 1)`.
        assert(planned_prefix_bytes(total, chunk, n - 1) == (n - 1) * chunk);
        assert((n - 1) * chunk == n * chunk - chunk) by (nonlinear_arith);
        if total - (n - 1) * chunk < chunk {
            assert(planned_prefix_bytes(total, chunk, n) == total);
            assert(n * chunk > total);
        } else {
            assert(planned_prefix_bytes(total, chunk, n) == n * chunk);
            assert(n * chunk <= total);
        }
    }
}

/// Every fragment before `planned_count` has a positive length of at
/// most `chunk`.
proof fn lemma_planned_len_bounds(total: int, chunk: int, n: int, i: int)
    requires
        total > 0,
        chunk >= 1,
        n == planned_count(total, chunk),
        0 <= i < n,
    ensures
        0 < planned_len(total, chunk, i) <= chunk,
{
    lemma_count_brackets_total(total, chunk);
    assert(i * chunk <= (n - 1) * chunk) by (nonlinear_arith)
        requires chunk >= 1, i <= n - 1;
}

/// `planned_count` is the least count whose chunks reach `total`:
/// `(count - 1) * chunk < total <= count * chunk`.
proof fn lemma_count_brackets_total(total: int, chunk: int)
    requires
        total > 0,
        chunk >= 1,
    ensures
        (planned_count(total, chunk) - 1) * chunk < total,
        total <= planned_count(total, chunk) * chunk,
{
    let n = planned_count(total, chunk);
    vstd::arithmetic::div_mod::lemma_fundamental_div_mod(total + chunk - 1, chunk);
    vstd::arithmetic::div_mod::lemma_mod_bound(total + chunk - 1, chunk);
    assert(total + chunk - 1 == n * chunk + (total + chunk - 1) % chunk);
    assert((n - 1) * chunk == n * chunk - chunk) by (nonlinear_arith);
}

} // verus!
