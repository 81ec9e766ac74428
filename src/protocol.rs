//! The reference-counting protocol of one block: the decisions taken on
//! the value that an atomic access of the count observed, the memory order
//! of each access, and what holds along any run of clones and drops.
use vstd::prelude::*;

verus! {

/// Largest count that a clone may leave behind; a clone from this count
/// aborts, so that the counter can never wrap around.
pub const MAX_REFCOUNT: usize = usize::MAX / 2;

/// A memory order for an atomic access or a fence.
#[derive(PartialEq, Eq, Structural, Clone, Copy, Debug)]
pub enum MemOrder {
    Relaxed,
    Release,
    Acquire,
}

/// A step that a handle takes on its block: a clone, a drop, or a check
/// for exclusive access.
#[derive(PartialEq, Eq, Structural, Clone, Copy, Debug)]
pub enum Op {
    Clone,
    Drop,
    TryGetMut,
}

/// One access made to a block: the first store of its count when it is
/// allocated, an atomic access of the count or a fence, each with its memory order, or the payload's destruction,
/// or a mutable borrow of the payload handed out.
#[derive(PartialEq, Eq, Structural, Clone, Copy, Debug)]
pub enum Access {
    Init(MemOrder),
    FetchAdd(MemOrder),
    FetchSub(MemOrder),
    Load(MemOrder),
    Fence(MemOrder),
    Destroy,
    GrantMut,
}

/// The count after `op`, from `count` live handles.
pub open spec fn step(count: nat, op: Op) -> nat {
    match op {
        Op::Clone => count + 1,
        Op::Drop => (count - 1) as nat,
        Op::TryGetMut => count,
    }
}

/// The accesses that `op` makes, from `count` live handles. A clone adds
/// with no ordering. Every drop subtracts with release order, so that what
/// its thread wrote to the payload is published; only the last one then
/// takes an acquire fence before the destruction, which makes what every
/// other thread published visible to it. A mutable borrow is handed out
/// only after a load that saw one handle and an acquire fence.
pub open spec fn accesses(count: nat, op: Op) -> Seq<Access> {
    match op {
        Op::Clone => seq![Access::FetchAdd(MemOrder::Relaxed)],
        Op::Drop => if count == 1 {
            seq![Access::FetchSub(MemOrder::Release), Access::Fence(MemOrder::Acquire), Access::Destroy]
        } else {
            seq![Access::FetchSub(MemOrder::Release)]
        },
        Op::TryGetMut => if count == 1 {
            seq![Access::Load(MemOrder::Relaxed), Access::Fence(MemOrder::Acquire), Access::GrantMut]
        } else {
            seq![Access::Load(MemOrder::Relaxed)]
        },
    }
}

/// Whether `op`, from `count` live handles, is the drop that destroys the payload.
pub open spec fn destroys(count: nat, op: Op) -> bool {
    op == Op::Drop && count == 1
}

/// The count after running `ops` from `start` live handles.
pub open spec fn count_after(start: nat, ops: Seq<Op>) -> nat
    decreases ops.len(),
{
    if ops.len() == 0 {
        start
    } else {
        step(count_after(start, ops.drop_last()), ops.last())
    }
}

/// How many steps of `ops`, run from `start` live handles, destroy the payload.
pub open spec fn destructions(start: nat, ops: Seq<Op>) -> nat
    decreases ops.len(),
{
    if ops.len() == 0 {
        0
    } else {
        let before = count_after(start, ops.drop_last());
        destructions(start, ops.drop_last()) + if destroys(before, ops.last()) {
            1nat
        } else {
            0nat
        }
    }
}

/// Every step of `ops` is made through a live handle: the count is at least
/// one before each of them.
pub open spec fn live_run(start: nat, ops: Seq<Op>) -> bool {
    forall|i: int| 0 <= i < ops.len() ==> count_after(start, #[trigger] ops.take(i)) >= 1
}

/// How many steps of `ops` are `op`.
pub open spec fn occurrences(ops: Seq<Op>, op: Op) -> nat
    decreases ops.len(),
{
    if ops.len() == 0 {
        0
    } else {
        occurrences(ops.drop_last(), op) + if ops.last() == op {
            1nat
        } else {
            0nat
        }
    }
}

/// `n` clones of the first handle, then `n + 1` drops.
pub open spec fn balanced_run(n: nat) -> Seq<Op> {
    Seq::new(n, |i: int| Op::Clone) + Seq::new(n + 1, |i: int| Op::Drop)
}

proof fn lemma_live_run_prefix(start: nat, ops: Seq<Op>)
    requires
        ops.len() > 0,
        live_run(start, ops),
    ensures
        live_run(start, ops.drop_last()),
        count_after(start, ops.drop_last()) >= 1,
{
    let pre = ops.drop_last();
    assert forall|i: int| 0 <= i < pre.len() implies count_after(start, #[trigger] pre.take(i)) >= 1 by {
        assert(pre.take(i) =~= ops.take(i));
    }
    assert(ops.take(pre.len() as int) =~= pre);
}

/// Along a run of live handles, the count is the first handle plus the
/// clones, less the drops: it counts the handles that are alive.
pub proof fn lemma_count_is_live_handles(start: nat, ops: Seq<Op>)
    requires
        start >= 1,
        live_run(start, ops),
    ensures
        count_after(start, ops) == start + occurrences(ops, Op::Clone) - occurrences(ops, Op::Drop),
    decreases ops.len(),
{
    if ops.len() > 0 {
        lemma_live_run_prefix(start, ops);
        lemma_count_is_live_handles(start, ops.drop_last());
    }
}

/// Along a run of live handles from one handle, the payload is destroyed
/// at most once, and it has been destroyed exactly when the count has
/// reached zero.
pub proof fn lemma_destroyed_once_at_zero(ops: Seq<Op>)
    requires
        live_run(1, ops),
    ensures
        destructions(1, ops) <= 1,
        destructions(1, ops) == 1 <==> count_after(1, ops) == 0,
    decreases ops.len(),
{
    if ops.len() > 0 {
        lemma_live_run_prefix(1, ops);
        lemma_destroyed_once_at_zero(ops.drop_last());
    }
}

proof fn lemma_balanced_counts(n: nat, i: int)
    requires
        0 <= i <= 2 * n + 1,
    ensures
        count_after(1, balanced_run(n).take(i)) == if i <= n {
            1 + i
        } else {
            2 * n + 1 - i
        },
    decreases i,
{
    let ops = balanced_run(n);
    if i > 0 {
        lemma_balanced_counts(n, i - 1);
        assert(ops.take(i).drop_last() =~= ops.take(i - 1));
    } else {
        assert(ops.take(0) =~= Seq::<Op>::empty());
    }
}

/// Along a run of live handles from one handle, every drop publishes its
/// thread's writes with a release decrement, and the drop that destroys
/// the payload is the last step of the run and takes an acquire fence
/// between its decrement and the destruction, so that it sees what every
/// earlier drop published. A granted mutable borrow likewise comes after
/// an acquire fence.
pub proof fn lemma_release_then_acquire(ops: Seq<Op>)
    requires
        live_run(1, ops),
    ensures
        forall|i: int|
            0 <= i < ops.len() && ops[i] == Op::Drop ==> (#[trigger] accesses(
                count_after(1, ops.take(i)),
                ops[i],
            ))[0] == Access::FetchSub(MemOrder::Release),
        forall|i: int|
            0 <= i < ops.len() && destroys(count_after(1, ops.take(i)), #[trigger] ops[i]) ==> {
                &&& i == ops.len() - 1
                &&& accesses(count_after(1, ops.take(i)), ops[i]) == seq![
                    Access::FetchSub(MemOrder::Release),
                    Access::Fence(MemOrder::Acquire),
                    Access::Destroy,
                ]
            },
        forall|c: nat| #[trigger] accesses(c, Op::TryGetMut).contains(Access::GrantMut) ==> {
            &&& c == 1
            &&& accesses(c, Op::TryGetMut) == seq![
                Access::Load(MemOrder::Relaxed),
                Access::Fence(MemOrder::Acquire),
                Access::GrantMut,
            ]
        },
{
    assert forall|i: int|
        0 <= i < ops.len() && destroys(count_after(1, ops.take(i)), #[trigger] ops[i]) implies i
        == ops.len() - 1 by {
        if i < ops.len() - 1 {
            assert(ops.take(i + 1).drop_last() =~= ops.take(i));
            assert(count_after(1, ops.take(i + 1)) >= 1);
        }
    }
    assert forall|c: nat| #[trigger] accesses(c, Op::TryGetMut).contains(Access::GrantMut) implies c == 1 by {
        if c != 1 {
            assert(accesses(c, Op::TryGetMut)[0] != Access::GrantMut);
        }
    }
}

/// After `n` clones and `n + 1` drops, the payload has been destroyed
/// exactly once, by the last drop.
pub proof fn lemma_balanced_run(n: nat)
    ensures
        live_run(1, balanced_run(n)),
        destructions(1, balanced_run(n)) == 1,
        destructions(1, balanced_run(n).drop_last()) == 0,
{
    let ops = balanced_run(n);
    assert forall|i: int| 0 <= i < ops.len() implies count_after(1, #[trigger] ops.take(i)) >= 1 by {
        lemma_balanced_counts(n, i);
    }
    lemma_balanced_counts(n, (2 * n + 1) as int);
    assert(ops.take((2 * n + 1) as int) =~= ops);
    lemma_destroyed_once_at_zero(ops);
    lemma_balanced_counts(n, (2 * n) as int);
    assert(ops.take((2 * n) as int) =~= ops.drop_last());
    lemma_live_run_prefix(1, ops);
    lemma_destroyed_once_at_zero(ops.drop_last());
}

/// The count that a clone leaves, or `None` where the clone must abort.
pub fn count_after_clone(prev: usize) -> (r: Option<usize>)
    ensures
        r == (if prev < MAX_REFCOUNT { Some((prev + 1) as usize) } else { None::<usize> }),
{
    if prev < MAX_REFCOUNT {
        Some(prev + 1)
    } else {
        None
    }
}

/// Whether a drop that observed `prev` before its decrement must destroy
/// the payload: exactly when it was the last handle.
pub fn is_last_drop(prev: usize) -> (r: bool)
    requires
        prev >= 1,
    ensures
        r == destroys(prev as nat, Op::Drop),
{
    prev == 1
}

/// Whether a handle that observed `count` may hand out mutable access.
pub fn is_exclusive(count: usize) -> (r: bool)
    ensures
        r == (count == 1),
{
    count == 1
}

/// The order of a clone's increment: relaxed, as the payload is not touched.
pub fn increment_order() -> (r: MemOrder)
    ensures
        forall|c: nat| #[trigger] accesses(c, Op::Clone) == seq![Access::FetchAdd(r)],
{
    MemOrder::Relaxed
}

/// The order of every drop's decrement: release, so that the writes this
/// thread made to the payload are published to the one that destroys it.
pub fn decrement_order() -> (r: MemOrder)
    ensures
        forall|c: nat| (#[trigger] accesses(c, Op::Drop))[0] == Access::FetchSub(r),
{
    MemOrder::Release
}

/// The order of the load that checks for exclusive ownership: relaxed,
/// the fence that follows a count of one does the synchronising.
pub fn load_order() -> (r: MemOrder)
    ensures
        forall|c: nat| (#[trigger] accesses(c, Op::TryGetMut))[0] == Access::Load(r),
{
    MemOrder::Relaxed
}

/// The fence taken by the last drop before the destruction, and by a
/// check that saw one handle before it grants mutable access: acquire.
pub fn fence_order() -> (r: MemOrder)
    ensures
        accesses(1, Op::Drop)[1] == Access::Fence(r),
        accesses(1, Op::TryGetMut)[1] == Access::Fence(r),
        r == MemOrder::Acquire,
{
    MemOrder::Acquire
}

} // verus!
