//! Sparse assembler: the partial file as the engine sees it. Fragment
//! bodies land at their offsets, concurrently and in any order, in a
//! buffer pre-sized to the total; the positional file writes mirror
//! `write_at` outside the library. The content law at the end is what
//! the whole fragment pipeline is for: however the waves interleave,
//! the assembled bytes are the fragment bodies in offset order.

use vstd::prelude::*;
use crate::planner::{planned_count, planned_len, planned_prefix_bytes};

verus! {

/// A buffer after one positional write: grown with zero bytes if the
/// write reaches past its end, then overwritten on the write's
/// interval.
pub open spec fn write_at_spec(buf: Seq<u8>, offset: int, data: Seq<u8>) -> Seq<u8> {
    let grown_len = if buf.len() >= offset + data.len() {
        buf.len() as int
    } else {
        offset + data.len()
    };
    Seq::new(
        grown_len as nat,
        |i: int|
            if offset <= i < offset + data.len() {
                data[i - offset]
            } else if i < buf.len() {
                buf[i]
            } else {
                0u8
            },
    )
}

/// A buffer after a sequence of positional writes, applied in order.
pub open spec fn apply_writes(buf: Seq<u8>, writes: Seq<(int, Seq<u8>)>) -> Seq<u8>
    decreases writes.len(),
{
    if writes.len() == 0 {
        buf
    } else {
        write_at_spec(apply_writes(buf, writes.drop_last()), writes.last().0, writes.last().1)
    }
}

/// The staging buffer behind one item's partial file.
pub struct Assembler {
    pub data: Vec<u8>,
}

impl Assembler {
    /// Open a staging buffer, pre-sized with zero bytes when the total
    /// is known.
    pub fn create(total_size: Option<u64>) -> (r: Self)
        requires
            total_size matches Some(t) ==> t <= usize::MAX,
        ensures
            r.data@ == zero_bytes(match total_size {
                Some(t) => t as int,
                None => 0int,
            }),
    {
        let n: usize = match total_size {
            Some(t) => t as usize,
            None => 0,
        };
        let mut data: Vec<u8> = Vec::new();
        let mut i: usize = 0;
        while i < n
            invariant
                i <= n,
                data@ =~= zero_bytes(i as int),
            decreases n - i,
        {
            data.push(0u8);
            i = i + 1;
            proof {
                assert(data@ =~= zero_bytes(i as int));
            }
        }
        Assembler { data }
    }

    /// Write `bytes` at `offset`, growing the buffer with zero bytes
    /// if the write reaches past its end.
    pub fn write_at(&mut self, offset: usize, bytes: &Vec<u8>)
        requires
            offset + bytes@.len() <= usize::MAX,
        ensures
            final(self).data@ == write_at_spec(old(self).data@, offset as int, bytes@),
    {
        let end = offset + bytes.len();
        while self.data.len() < end
            invariant
                end == offset + bytes@.len(),
                self.data@.len() >= old(self).data@.len(),
                self.data@.len() <= end || self.data@ == old(self).data@,
                self.data@.subrange(0, old(self).data@.len() as int) == old(self).data@,
                forall|i: int| old(self).data@.len() <= i < self.data@.len() ==> self.data@[i] == 0u8,
            decreases end - self.data.len(),
        {
            self.data.push(0u8);
            proof {
                assert(self.data@.subrange(0, old(self).data@.len() as int) =~= old(self).data@);
            }
        }
        let ghost grown = self.data@;
        proof {
            assert(grown.len() == if old(self).data@.len() >= end as int {
                old(self).data@.len() as int
            } else {
                end as int
            });
        }
        let n = bytes.len();
        let mut i: usize = 0;
        while i < n
            invariant
                n == bytes@.len(),
                end == offset + n,
                offset + n <= usize::MAX,
                i <= n,
                offset + n <= grown.len(),
                self.data@.len() == grown.len(),
                forall|j: int| 0 <= j < i ==> self.data@[offset + j] == bytes@[j],
                forall|j: int|
                    0 <= j < grown.len() && !(offset <= j < offset + i) ==> self.data@[j]
                        == grown[j],
            decreases n - i,
        {
            self.data.set(offset + i, bytes[i]);
            i = i + 1;
        }
        proof {
            let target = write_at_spec(old(self).data@, offset as int, bytes@);
            let l0 = old(self).data@.len() as int;
            assert(self.data@.len() == target.len());
            assert forall|j: int| 0 <= j < self.data@.len() implies self.data@[j] == target[j] by {
                if offset <= j < offset + n {
                    assert(self.data@[offset + (j - offset)] == bytes@[j - offset]);
                } else {
                    assert(self.data@[j] == grown[j]);
                    if j < l0 {
                        assert(grown.subrange(0, l0)[j] == grown[j]);
                    }
                }
            }
            assert(self.data@ =~= target);
        }
    }

    /// Make the staged bytes durable. The buffer is already its own
    /// storage; the file-backed sink flushes here.
    pub fn flush(&self) -> (r: bool)
        ensures
            r,
    {
        true
    }

    /// The staged bytes, for promotion to the target path.
    pub fn into_bytes(self) -> (r: Vec<u8>)
        ensures
            r@ == self.data@,
    {
        self.data
    }
}

pub open spec fn zero_bytes(n: int) -> Seq<u8> {
    Seq::new(n as nat, |i: int| 0u8)
}

/// The fragment bodies in offset order, as one byte string.
pub open spec fn concat_bodies(bodies: Seq<Seq<u8>>) -> Seq<u8>
    decreases bodies.len(),
{
    if bodies.len() == 0 {
        Seq::empty()
    } else {
        concat_bodies(bodies.drop_last()) + bodies.last()
    }
}

/// The writes of a planned download in the order the waves finished:
/// position `k` writes the body of fragment `order[k]` at that
/// fragment's planned offset.
pub open spec fn planned_writes(
    total: int,
    chunk: int,
    bodies: Seq<Seq<u8>>,
    order: Seq<int>,
) -> Seq<(int, Seq<u8>)> {
    Seq::new(order.len(), |k: int| (planned_prefix_bytes(total, chunk, order[k]), bodies[order[k]]))
}

/// Applying writes in sequence splits over concatenation of the write
/// lists; a run interrupted and resumed assembles as one run would.
pub proof fn lemma_apply_writes_append(buf: Seq<u8>, w1: Seq<(int, Seq<u8>)>, w2: Seq<(int, Seq<u8>)>)
    ensures
        apply_writes(buf, w1 + w2) == apply_writes(apply_writes(buf, w1), w2),
    decreases w2.len(),
{
    if w2.len() == 0 {
        assert(w1 + w2 =~= w1);
    } else {
        lemma_apply_writes_append(buf, w1, w2.drop_last());
        assert((w1 + w2).drop_last() =~= w1 + w2.drop_last());
        assert((w1 + w2).last() == w2.last());
    }
}

/// Law: the assembled file is the concatenation of the fragment bodies
/// in offset order. For a plan over `total` bytes, bodies of the
/// planned lengths, and the fragments written once each in any order
/// into a buffer pre-sized to `total`, the final buffer is exactly the
/// bodies joined in offset order, and its length is `total`.
pub proof fn lemma_assembled_content(
    total: int,
    chunk: int,
    bodies: Seq<Seq<u8>>,
    order: Seq<int>,
)
    requires
        total > 0,
        chunk >= 1,
        bodies.len() == planned_count(total, chunk),
        forall|i: int| 0 <= i < bodies.len() ==> (#[trigger] bodies[i]).len() == planned_len(
            total,
            chunk,
            i,
        ),
        order.len() == bodies.len(),
        forall|k: int| 0 <= k < order.len() ==> 0 <= #[trigger] order[k] < bodies.len(),
        forall|k1: int, k2: int|
            0 <= k1 < order.len() && 0 <= k2 < order.len() && k1 != k2 ==> #[trigger] order[k1]
                != #[trigger] order[k2],
    ensures
        ({
            let out = apply_writes(zero_bytes(total), planned_writes(total, chunk, bodies, order));
            &&& out.len() == total
            &&& out == concat_bodies(bodies)
        }),
{
    let out = apply_writes(zero_bytes(total), planned_writes(total, chunk, bodies, order));
    lemma_plan_shape_is_planned(total, chunk);
    crate::planner::lemma_plan_covers(total, chunk, plan_shape(total, chunk));
    lemma_writes_land(total, chunk, bodies, order, order.len() as int);
    assert(planned_writes(total, chunk, bodies, order).take(order.len() as int)
        =~= planned_writes(total, chunk, bodies, order));
    assert(out.len() == total);
    // Every index of `order` appears, so every fragment's interval holds
    // its body in the final buffer.
    assert forall|i: int| 0 <= i < bodies.len() implies out.subrange(
        planned_prefix_bytes(total, chunk, i),
        planned_prefix_bytes(total, chunk, i) + planned_len(total, chunk, i),
    ) == bodies[i] by {
        lemma_order_covers(order, bodies.len() as int, i);
        let k = choose|k: int| 0 <= k < order.len() && order[k] == i;
        assert(0 <= k < order.len() && order[k] == i);
    }
    lemma_concat_from_intervals(total, chunk, bodies, out, bodies.len() as int);
    crate::planner::lemma_planned_offsets(total, chunk, bodies.len() as int);
    assert(out.subrange(0, planned_prefix_bytes(total, chunk, bodies.len() as int)) =~= out);
    assert(bodies.take(bodies.len() as int) =~= bodies);
}

/// A surjection argument: an injective sequence of `n` values drawn
/// from `0 .. n` hits every value.
proof fn lemma_order_covers(order: Seq<int>, n: int, target: int)
    requires
        order.len() == n,
        0 <= target < n,
        forall|k: int| 0 <= k < order.len() ==> 0 <= #[trigger] order[k] < n,
        forall|k1: int, k2: int|
            0 <= k1 < order.len() && 0 <= k2 < order.len() && k1 != k2 ==> #[trigger] order[k1]
                != #[trigger] order[k2],
    ensures
        exists|k: int| 0 <= k < order.len() && order[k] == target,
{
    let hit = Set::new(|v: int| 0 <= v < n && exists|k: int| 0 <= k < order.len() && order[k] == v);
    let all = vstd::set_lib::set_int_range(0, n);
    assert(hit.subset_of(all));
    vstd::set_lib::lemma_int_range(0, n);
    assert(all.finite() && all.len() == n);
    vstd::set_lib::lemma_len_subset(hit, all);
    if !hit.contains(target) {
        let f = |k: int| order[k];
        lemma_injective_seq_card(order, hit);
        assert(hit.len() >= n);
        vstd::set_lib::lemma_len_subset(hit, all);
        assert(all.contains(target));
        assert(hit.len() < all.len()) by {
            lemma_proper_subset_smaller(hit, all, target);
        }
    }
}

/// An injective sequence has at least as many distinct values as
/// entries.
proof fn lemma_injective_seq_card(order: Seq<int>, hit: Set<int>)
    requires
        forall|k1: int, k2: int|
            0 <= k1 < order.len() && 0 <= k2 < order.len() && k1 != k2 ==> #[trigger] order[k1]
                != #[trigger] order[k2],
        forall|k: int| 0 <= k < order.len() ==> hit.contains(#[trigger] order[k]),
        hit.finite(),
    ensures
        hit.len() >= order.len(),
    decreases order.len(),
{
    if order.len() > 0 {
        let x = order.last();
        let rest = order.drop_last();
        let smaller = hit.remove(x);
        assert(forall|k: int| 0 <= k < rest.len() ==> rest[k] == order[k]);
        assert(forall|k: int|
            0 <= k < rest.len() ==> #[trigger] rest[k] != x && smaller.contains(rest[k]));
        lemma_injective_seq_card(rest, smaller);
        assert(hit.contains(x));
        assert(smaller.len() == hit.len() - 1);
    }
}

proof fn lemma_proper_subset_smaller(a: Set<int>, b: Set<int>, witness: int)
    requires
        a.subset_of(b),
        b.finite(),
        b.contains(witness),
        !a.contains(witness),
    ensures
        a.len() < b.len(),
{
    assert(a.subset_of(b.remove(witness)));
    vstd::set_lib::lemma_len_subset(a, b.remove(witness));
    assert(b.remove(witness).len() == b.len() - 1);
}

/// The planned fragments as a sequence, for citing the planner's
/// coverage law.
pub open spec fn plan_shape(total: int, chunk: int) -> Seq<crate::model::Fragment> {
    Seq::new(
        planned_count(total, chunk) as nat,
        |i: int| crate::planner::planned_fragment(total, chunk, i),
    )
}

/// After the first `m` planned writes, the buffer still has length
/// `total` and each fragment written so far holds its body on its
/// interval.
proof fn lemma_writes_land(total: int, chunk: int, bodies: Seq<Seq<u8>>, order: Seq<int>, m: int)
    requires
        total > 0,
        chunk >= 1,
        bodies.len() == planned_count(total, chunk),
        forall|i: int| 0 <= i < bodies.len() ==> (#[trigger] bodies[i]).len() == planned_len(
            total,
            chunk,
            i,
        ),
        order.len() == bodies.len(),
        forall|k: int| 0 <= k < order.len() ==> 0 <= #[trigger] order[k] < bodies.len(),
        forall|k1: int, k2: int|
            0 <= k1 < order.len() && 0 <= k2 < order.len() && k1 != k2 ==> #[trigger] order[k1]
                != #[trigger] order[k2],
        0 <= m <= order.len(),
    ensures
        ({
            let out = apply_writes(
                zero_bytes(total),
                planned_writes(total, chunk, bodies, order).take(m),
            );
            &&& out.len() == total
            &&& forall|k: int|
                0 <= k < m ==> out.subrange(
                    planned_prefix_bytes(total, chunk, #[trigger] order[k]),
                    planned_prefix_bytes(total, chunk, order[k]) + planned_len(
                        total,
                        chunk,
                        order[k],
                    ),
                ) == bodies[order[k]]
        }),
    decreases m,
{
    crate::planner::lemma_plan_covers(total, chunk, plan_shape(total, chunk));
    let writes = planned_writes(total, chunk, bodies, order);
    if m > 0 {
        lemma_writes_land(total, chunk, bodies, order, m - 1);
        let prev = apply_writes(zero_bytes(total), writes.take(m - 1));
        let out = apply_writes(zero_bytes(total), writes.take(m));
        assert(writes.take(m).drop_last() =~= writes.take(m - 1));
        assert(writes.take(m).last() == writes[m - 1]);
        let i = order[m - 1];
        let o = planned_prefix_bytes(total, chunk, i);
        let l = planned_len(total, chunk, i);
        lemma_interval_in_total(total, chunk, i);
        assert(out == write_at_spec(prev, o, bodies[i]));
        assert(out.len() == total);
        assert(out.subrange(o, o + l) =~= bodies[i]);
        assert forall|k: int| 0 <= k < m - 1 implies out.subrange(
            planned_prefix_bytes(total, chunk, #[trigger] order[k]),
            planned_prefix_bytes(total, chunk, order[k]) + planned_len(total, chunk, order[k]),
        ) == bodies[order[k]] by {
            let ok = planned_prefix_bytes(total, chunk, order[k]);
            let lk = planned_len(total, chunk, order[k]);
            lemma_interval_in_total(total, chunk, order[k]);
            lemma_intervals_disjoint(total, chunk, order[k], i);
            assert(prev.subrange(ok, ok + lk) == bodies[order[k]]);
            assert(out.subrange(ok, ok + lk) =~= prev.subrange(ok, ok + lk));
        }
    }
}

/// The plan shape satisfies the planner's own description.
proof fn lemma_plan_shape_is_planned(total: int, chunk: int)
    requires
        total > 0,
        chunk >= 1,
    ensures
        crate::planner::is_planned(total, chunk, plan_shape(total, chunk)),
{
}

/// Every planned interval lies inside `[0, total)`.
proof fn lemma_interval_in_total(total: int, chunk: int, i: int)
    requires
        total > 0,
        chunk >= 1,
        0 <= i < planned_count(total, chunk),
    ensures
        0 <= planned_prefix_bytes(total, chunk, i),
        planned_prefix_bytes(total, chunk, i) + planned_len(total, chunk, i)
            == planned_prefix_bytes(total, chunk, i + 1),
        planned_prefix_bytes(total, chunk, i + 1) <= total,
        planned_len(total, chunk, i) > 0,
{
    lemma_plan_shape_is_planned(total, chunk);
    crate::planner::lemma_plan_covers(total, chunk, plan_shape(total, chunk));
    crate::planner::lemma_planned_offsets(total, chunk, i);
    crate::planner::lemma_planned_offsets(total, chunk, i + 1);
    assert(planned_len(total, chunk, i) > 0);
}

/// Prefix byte sums grow along the plan and never pass `total`.
proof fn lemma_prefix_monotone(total: int, chunk: int, a: int, b: int)
    requires
        total > 0,
        chunk >= 1,
        0 <= a <= b <= planned_count(total, chunk),
    ensures
        planned_prefix_bytes(total, chunk, a) <= planned_prefix_bytes(total, chunk, b),
        planned_prefix_bytes(total, chunk, b) <= total,
{
    crate::planner::lemma_planned_offsets(total, chunk, a);
    crate::planner::lemma_planned_offsets(total, chunk, b);
    assert(a * chunk <= b * chunk) by (nonlinear_arith)
        requires
            chunk >= 1,
            a <= b,
    ;
}

/// Distinct planned fragments occupy disjoint intervals.
proof fn lemma_intervals_disjoint(total: int, chunk: int, i: int, j: int)
    requires
        total > 0,
        chunk >= 1,
        0 <= i < planned_count(total, chunk),
        0 <= j < planned_count(total, chunk),
        i != j,
    ensures
        planned_prefix_bytes(total, chunk, i) + planned_len(total, chunk, i)
            <= planned_prefix_bytes(total, chunk, j) || planned_prefix_bytes(total, chunk, j)
            + planned_len(total, chunk, j) <= planned_prefix_bytes(total, chunk, i),
{
    if i < j {
        lemma_interval_in_total(total, chunk, i);
        lemma_prefix_monotone(total, chunk, i + 1, j);
        lemma_interval_in_total(total, chunk, j);
    } else {
        lemma_interval_in_total(total, chunk, j);
        lemma_prefix_monotone(total, chunk, j + 1, i);
        lemma_interval_in_total(total, chunk, i);
    }
}

/// A buffer whose every planned interval holds its fragment's body is
/// the concatenation of the bodies: the prefix covering the first `m`
/// fragments equals the concatenation of their bodies.
proof fn lemma_concat_from_intervals(
    total: int,
    chunk: int,
    bodies: Seq<Seq<u8>>,
    out: Seq<u8>,
    m: int,
)
    requires
        total > 0,
        chunk >= 1,
        bodies.len() == planned_count(total, chunk),
        forall|i: int| 0 <= i < bodies.len() ==> (#[trigger] bodies[i]).len() == planned_len(
            total,
            chunk,
            i,
        ),
        out.len() == total,
        forall|i: int|
            0 <= i < bodies.len() ==> out.subrange(
                planned_prefix_bytes(total, chunk, i),
                planned_prefix_bytes(total, chunk, i) + planned_len(total, chunk, i),
            ) == #[trigger] bodies[i],
        0 <= m <= bodies.len(),
    ensures
        out.subrange(0, planned_prefix_bytes(total, chunk, m)) == concat_bodies(bodies.take(m)),
    decreases m,
{
    if m == 0 {
        assert(out.subrange(0, 0) =~= Seq::<u8>::empty());
        assert(bodies.take(0) =~= Seq::<Seq<u8>>::empty());
    } else {
        lemma_concat_from_intervals(total, chunk, bodies, out, m - 1);
        lemma_interval_in_total(total, chunk, m - 1);
        lemma_prefix_monotone(total, chunk, 0, m - 1);
        let p0 = planned_prefix_bytes(total, chunk, m - 1);
        let p1 = planned_prefix_bytes(total, chunk, m);
        assert(out.subrange(0, p1) =~= out.subrange(0, p0) + out.subrange(p0, p1));
        assert(bodies.take(m).drop_last() =~= bodies.take(m - 1));
        assert(bodies.take(m).last() == bodies[m - 1]);
    }
}

} // verus!
