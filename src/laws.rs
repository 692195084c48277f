use vstd::prelude::*;

use crate::align::{lemma_padding_aligns, padding};
use crate::arena::{ArenaError, ArenaView, BlockLayout, Op, Plan};

verus! {

/// The length of the backing file after one request: the planned length
/// where a resize was planned and succeeded, the old length otherwise.
pub open spec fn file_len_after(v: ArenaView, len: nat, op: Op, resized: bool) -> nat {
    match v.plan(op) {
        Ok(p) => if p.resize && resized {
            p.new_size as nat
        } else {
            len
        },
        Err(_) => len,
    }
}

/// Runs `steps` (each a request and whether the backing file took the
/// planned length) from the arena `v` with the backing file at `len`: the
/// arena and the file's length after them.
pub open spec fn run(v: ArenaView, len: nat, steps: Seq<(Op, bool)>) -> (ArenaView, nat)
    decreases steps.len(),
{
    if steps.len() == 0 {
        (v, len)
    } else {
        let op = steps[0].0;
        let resized = steps[0].1;
        run(v.after(op, resized), file_len_after(v, len, op, resized), steps.drop_first())
    }
}

/// Whatever requests come and whichever resizes of the backing file fail,
/// the high-water mark equals the backing file's length after each request
/// when it did before the first.
pub proof fn lemma_size_tracks_file(v: ArenaView, len: nat, steps: Seq<(Op, bool)>)
    requires
        v.wf(),
        forall|i: int| 0 <= i < steps.len() ==> (#[trigger] steps[i]).0.wf(),
        v.size == len,
    ensures
        run(v, len, steps).0.size == run(v, len, steps).1,
    decreases steps.len(),
{
    if steps.len() > 0 {
        let op = steps[0].0;
        let resized = steps[0].1;
        assert(steps[0].0.wf());
        lemma_after_wf(v, op, resized);
        assert forall|i: int| 0 <= i < steps.drop_first().len() implies (
        #[trigger] steps.drop_first()[i]).0.wf() by {
            assert(steps.drop_first()[i] == steps[i + 1]);
        }
        lemma_size_tracks_file(v.after(op, resized), file_len_after(v, len, op, resized), steps.drop_first());
    }
}

/// Every request keeps the arena well formed, whatever the resize did.
pub proof fn lemma_after_wf(v: ArenaView, op: Op, resized: bool)
    requires
        v.wf(),
        op.wf(),
    ensures
        v.after(op, resized).wf(),
{
}

/// A successful allocation starts at an offset that is a multiple of its
/// alignment, and so at an aligned address where the base is aligned.
pub proof fn lemma_allocation_aligned(v: ArenaView, layout: BlockLayout, resized: bool)
    requires
        v.wf(),
        layout.wf(),
    ensures
        match v.outcome(Op::Allocate { layout }, resized) {
            Ok(p) => match p.start {
                Some(s) => s % layout.align == 0 && (v.base as int % layout.align as int == 0 ==> (v.base
                    + s) as int % layout.align as int == 0),
                None => false,
            },
            Err(_) => true,
        },
{
    lemma_padding_aligns(v.size as int, layout.align as int);
    let b = v.base as int;
    let a = layout.align as int;
    let s = v.alloc_start(layout);
    if b % a == 0 {
        assert((b + s) % a == 0) by (nonlinear_arith)
            requires
                a > 0,
                b % a == 0,
                s % a == 0,
                b >= 0,
                s >= 0,
        {
            let q1 = b / a;
            let q2 = s / a;
            assert(b == q1 * a);
            assert(s == q2 * a);
            assert(b + s == (q1 + q2) * a);
        };
    }
}

/// An allocation whose padded request would pass the reservation cap fails
/// with `CapacityExceeded` and leaves the arena as it was.
pub proof fn lemma_capacity_boundary(v: ArenaView, layout: BlockLayout, resized: bool)
    requires
        v.wf(),
        layout.wf(),
        v.alloc_start(layout) + layout.size > v.cap,
    ensures
        v.outcome(Op::Allocate { layout }, resized) == Err::<Plan, ArenaError>(ArenaError::CapacityExceeded),
        v.after(Op::Allocate { layout }, resized) == v,
{
}

/// Shrinking or freeing a block that is not the tail changes nothing, and
/// shrinking hands back the block where it was.
pub proof fn lemma_non_tail_is_noop(v: ArenaView, op: Op, resized: bool)
    requires
        v.wf(),
        op.wf(),
        match op {
            Op::Shrink { addr, old, new } => !v.is_tail(addr as int, old.size as int),
            Op::Deallocate { addr, layout } => !v.is_tail(addr as int, layout.size as int),
            _ => false,
        },
    ensures
        v.after(op, resized) == v,
        v.outcome(op, resized) is Ok,
        v.outcome(op, resized)->Ok_0.start is None,
        !v.outcome(op, resized)->Ok_0.resize,
{
}

/// The bytes that allocating `ls` in turn takes from a high-water mark at
/// `size`: each request's padding and its size.
pub open spec fn padded_total(size: int, ls: Seq<BlockLayout>) -> int
    decreases ls.len(),
{
    if ls.len() == 0 {
        0
    } else {
        let step = padding(size, ls[0].align as int) + ls[0].size;
        step + padded_total(size + step, ls.drop_first())
    }
}

/// Allocates `ls` in turn from `v`, each resize succeeding: the arena after
/// them and what each returned.
pub open spec fn allocations(v: ArenaView, ls: Seq<BlockLayout>) -> (ArenaView, Seq<
    Result<Plan, ArenaError>,
>)
    decreases ls.len(),
{
    if ls.len() == 0 {
        (v, seq![])
    } else {
        let op = Op::Allocate { layout: ls[0] };
        let rest = allocations(v.after(op, true), ls.drop_first());
        (rest.0, seq![v.outcome(op, true)] + rest.1)
    }
}

/// The offset of the block that a result carves, or -1 where it carves none.
pub open spec fn start_of(r: Result<Plan, ArenaError>) -> int {
    match r {
        Ok(p) => match p.start {
            Some(s) => s as int,
            None => -1,
        },
        Err(_) => -1,
    }
}

/// The offset just past the block that a result hands back.
pub open spec fn end_of(r: Result<Plan, ArenaError>) -> int {
    match r {
        Ok(p) => start_of(r) + p.len,
        Err(_) => -1,
    }
}

proof fn lemma_padded_total_nonneg(size: int, ls: Seq<BlockLayout>)
    requires
        size >= 0,
        forall|i: int| 0 <= i < ls.len() ==> (#[trigger] ls[i]).wf(),
    ensures
        padded_total(size, ls) >= 0,
    decreases ls.len(),
{
    if ls.len() > 0 {
        lemma_padding_aligns(size, ls[0].align as int);
        let step = padding(size, ls[0].align as int) + ls[0].size;
        assert forall|i: int| 0 <= i < ls.drop_first().len() implies (#[trigger] ls.drop_first()[i]).wf() by {
            assert(ls.drop_first()[i] == ls[i + 1]);
        }
        lemma_padded_total_nonneg(size + step, ls.drop_first());
    }
}

/// Allocations made one after another, as many threads make them through
/// one lock, all succeed while their padded sizes fit below the cap; the
/// blocks they hand out are aligned, lie between the old and the new
/// high-water mark and do not overlap, and the high-water mark grows by
/// exactly the sum of the padded sizes.
pub proof fn lemma_allocations_disjoint(v: ArenaView, ls: Seq<BlockLayout>)
    requires
        v.wf(),
        forall|i: int| 0 <= i < ls.len() ==> (#[trigger] ls[i]).wf(),
        v.size + padded_total(v.size as int, ls) <= v.cap,
    ensures
        allocations(v, ls).1.len() == ls.len(),
        allocations(v, ls).0.size == v.size + padded_total(v.size as int, ls),
        forall|i: int|
            0 <= i < ls.len() ==> {
                let r = #[trigger] allocations(v, ls).1[i];
                &&& r is Ok
                &&& r->Ok_0.len == ls[i].size
                &&& v.size <= start_of(r)
                &&& start_of(r) % ls[i].align as int == 0
                &&& end_of(r) <= allocations(v, ls).0.size
            },
        forall|i: int, j: int|
            0 <= i < j < ls.len() ==> end_of(#[trigger] allocations(v, ls).1[i]) <= start_of(
                #[trigger] allocations(v, ls).1[j],
            ),
    decreases ls.len(),
{
    if ls.len() > 0 {
        let l = ls[0];
        let op = Op::Allocate { layout: l };
        let rest_ls = ls.drop_first();
        assert forall|i: int| 0 <= i < rest_ls.len() implies (#[trigger] rest_ls[i]).wf() by {
            assert(rest_ls[i] == ls[i + 1]);
        }
        lemma_padding_aligns(v.size as int, l.align as int);
        let step = padding(v.size as int, l.align as int) + l.size;
        lemma_padded_total_nonneg(v.size + step, rest_ls);
        let w = v.after(op, true);
        let r0 = v.outcome(op, true);
        assert(r0 is Ok);
        assert(w.size == v.size + step);
        assert(start_of(r0) == v.alloc_start(l));
        lemma_after_wf(v, op, true);
        lemma_allocations_disjoint(w, rest_ls);
        let rs = allocations(v, ls).1;
        let rest = allocations(w, rest_ls).1;
        assert(rs == seq![r0] + rest);
        assert(allocations(v, ls).0 == allocations(w, rest_ls).0);
        assert forall|i: int| 0 <= i < ls.len() implies {
            let r = #[trigger] allocations(v, ls).1[i];
            &&& r is Ok
            &&& r->Ok_0.len == ls[i].size
            &&& v.size <= start_of(r)
            &&& start_of(r) % ls[i].align as int == 0
            &&& end_of(r) <= allocations(v, ls).0.size
        } by {
            if i > 0 {
                assert(rs[i] == rest[i - 1]);
                assert(ls[i] == rest_ls[i - 1]);
            }
        }
        assert forall|i: int, j: int| 0 <= i < j < ls.len() implies end_of(
            #[trigger] allocations(v, ls).1[i],
        ) <= start_of(#[trigger] allocations(v, ls).1[j]) by {
            assert(rs[j] == rest[j - 1]);
            if i > 0 {
                assert(rs[i] == rest[i - 1]);
            }
        }
    }
}

} // verus!
