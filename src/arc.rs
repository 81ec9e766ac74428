//! Shared-ownership handles over the blocks of a `Heap`.
//!
//! Each call on a handle is one step of its block's count, taken in the
//! order in which the atomic accesses of the count are ordered; handles
//! held by many threads are put in that order by passing the `Heap`. Each
//! block also keeps a record of the accesses and fences that its steps
//! made, with their memory orders, as the protocol prescribes them.
use std::marker::PhantomData;
use vstd::prelude::*;

use crate::protocol::{
    accesses, count_after_clone, destroys, is_exclusive, is_last_drop, step, Access, MemOrder, Op,
    MAX_REFCOUNT,
};

verus! {

/// One allocation: the count of live handles and the payload, which is
/// present exactly while the count is positive.
struct Block<T> {
    ref_count: usize,
    data: Option<T>,
}

/// The allocations that handles point into. A block stays in place after
/// its payload is destroyed, so that a position is never reused.
pub struct Heap<T> {
    blocks: Vec<Block<T>>,
    /// For each block, the accesses made to it so far.
    log: Ghost<Seq<Seq<Access>>>,
}

impl<T> View for Heap<T> {
    /// For each block, its count and its payload.
    type V = Seq<(nat, Option<T>)>;

    closed spec fn view(&self) -> Seq<(nat, Option<T>)> {
        self.blocks@.map_values(|b: Block<T>| (b.ref_count as nat, b.data))
    }
}

impl<T> Heap<T> {
    /// For each block, the accesses that the steps on it have made, in order.
    pub closed spec fn history(&self) -> Seq<Seq<Access>> {
        self.log@
    }

    /// Each block has its record of accesses, and holds its payload exactly
    /// while its count is positive.
    pub open spec fn wf(&self) -> bool {
        &&& self.history().len() == self@.len()
        &&& forall|p: int|
            0 <= p < self@.len() ==> (#[trigger] self@[p]).1.is_some() == (self@[p].0 > 0)
    }

    /// Whether `a` points at a block of this heap that still has live handles.
    pub open spec fn holds(&self, a: &Arc<T>) -> bool {
        &&& 0 <= a.ptr() < self@.len()
        &&& self@[a.ptr()].0 >= 1
    }

    /// A heap with no blocks.
    pub fn new() -> (r: Heap<T>)
        ensures
            r.wf(),
            r@ == Seq::<(nat, Option<T>)>::empty(),
            r.history() == Seq::<Seq<Access>>::empty(),
    {
        let r = Heap { blocks: Vec::new(), log: Ghost(Seq::empty()) };
        assert(r@ =~= Seq::<(nat, Option<T>)>::empty());
        r
    }
}

/// A handle to one block of a `Heap`, owning one unit of its count.
pub struct Arc<T> {
    ptr: usize,
    marker: PhantomData<T>,
}

impl<T> Arc<T> {
    /// The position of the block this handle points at.
    pub closed spec fn ptr(&self) -> int {
        self.ptr as int
    }

    /// Allocates a block holding `data` with a count of one, and returns
    /// the first handle to it.
    pub fn new(heap: &mut Heap<T>, data: T) -> (r: Arc<T>)
        requires
            old(heap).wf(),
        ensures
            final(heap).wf(),
            r.ptr() == old(heap)@.len(),
            final(heap)@ == old(heap)@.push((1nat, Some(data))),
            final(heap).holds(&r),
            final(heap).history() == old(heap).history().push(seq![Access::Init(MemOrder::Relaxed)]),
    {
        heap.blocks.push(Block { ref_count: 1, data: Some(data) });
        heap.log = Ghost(heap.log@.push(seq![Access::Init(MemOrder::Relaxed)]));
        let r = Arc { ptr: heap.blocks.len() - 1, marker: PhantomData };
        assert(heap@ =~= old(heap)@.push((1nat, Some(data))));
        r
    }
    /// Makes another handle to the same block, raising its count by one.
    /// A clone from a count of `MAX_REFCOUNT` or more aborts, so it is
    /// left out here.
    pub fn clone(&self, heap: &mut Heap<T>) -> (r: Arc<T>)
        requires
            old(heap).wf(),
            old(heap).holds(self),
            old(heap)@[self.ptr()].0 < MAX_REFCOUNT,
        ensures
            final(heap).wf(),
            r.ptr() == self.ptr(),
            final(heap)@ == old(heap)@.update(
                self.ptr(),
                (step(old(heap)@[self.ptr()].0, Op::Clone), old(heap)@[self.ptr()].1),
            ),
            final(heap).history() == old(heap).history().update(
                self.ptr(),
                old(heap).history()[self.ptr()] + accesses(old(heap)@[self.ptr()].0, Op::Clone),
            ),
    {
        let p = self.ptr;
        let prev = heap.blocks[p].ref_count;
        match count_after_clone(prev) {
            Some(c) => {
                let b = &mut heap.blocks[p];
                b.ref_count = c;
                heap.log = Ghost(heap.log@.update(p as int, heap.log@[p as int] + accesses(prev as nat, Op::Clone)));
            },
            None => {},
        }
        assert(heap@ =~= old(heap)@.update(
            self.ptr(),
            (step(old(heap)@[self.ptr()].0, Op::Clone), old(heap)@[self.ptr()].1),
        ));
        Arc { ptr: p, marker: PhantomData }
    }

    /// Gives up this handle, lowering its block's count by one. The drop
    /// that takes the count from one to zero takes the payload out of the
    /// block and returns it, to be destroyed by the caller; every other
    /// drop returns `None`.
    pub fn drop(self, heap: &mut Heap<T>) -> (r: Option<T>)
        requires
            old(heap).wf(),
            old(heap).holds(&self),
        ensures
            final(heap).wf(),
            r == (if destroys(old(heap)@[self.ptr()].0, Op::Drop) {
                old(heap)@[self.ptr()].1
            } else {
                None
            }),
            final(heap)@ == old(heap)@.update(
                self.ptr(),
                (
                    step(old(heap)@[self.ptr()].0, Op::Drop),
                    if destroys(old(heap)@[self.ptr()].0, Op::Drop) {
                        None
                    } else {
                        old(heap)@[self.ptr()].1
                    },
                ),
            ),
            final(heap).history() == old(heap).history().update(
                self.ptr(),
                old(heap).history()[self.ptr()] + accesses(old(heap)@[self.ptr()].0, Op::Drop),
            ),
    {
        let p = self.ptr;
        let prev = heap.blocks[p].ref_count;
        let b = &mut heap.blocks[p];
        b.ref_count = prev - 1;
        heap.log = Ghost(heap.log@.update(p as int, heap.log@[p as int] + accesses(prev as nat, Op::Drop)));
        let r = if is_last_drop(prev) {
            b.data.take()
        } else {
            None
        };
        assert(heap@ =~= old(heap)@.update(
            self.ptr(),
            (
                step(old(heap)@[self.ptr()].0, Op::Drop),
                if destroys(old(heap)@[self.ptr()].0, Op::Drop) {
                    None
                } else {
                    old(heap)@[self.ptr()].1
                },
            ),
        ));
        r
    }

    /// Mutable access to the payload, granted exactly when this handle is
    /// the only one to its block.
    pub fn get_mut<'a>(arc: &'a mut Self, heap: &'a mut Heap<T>) -> (r: Option<&'a mut T>)
        requires
            old(heap).wf(),
            old(heap).holds(old(arc)),
        ensures
            *final(arc) == *old(arc),
            r.is_some() == (old(heap)@[old(arc).ptr()].0 == 1),
            r.is_some() ==> Some(*r.unwrap()) == old(heap)@[old(arc).ptr()].1,
            r.is_some() ==> final(heap)@ == old(heap)@.update(
                old(arc).ptr(),
                (1nat, Some(*final(r.unwrap()))),
            ),
            r.is_none() ==> final(heap)@ == old(heap)@,
            final(heap).history() == old(heap).history().update(
                old(arc).ptr(),
                old(heap).history()[old(arc).ptr()] + accesses(old(heap)@[old(arc).ptr()].0, Op::TryGetMut),
            ),
            final(heap).wf(),
    {
        let p = arc.ptr;
        let c = heap.blocks[p].ref_count;
        heap.log = Ghost(heap.log@.update(p as int, heap.log@[p as int] + accesses(c as nat, Op::TryGetMut)));
        if is_exclusive(c) {
            let b = &mut heap.blocks[p];
            b.data.as_mut()
        } else {
            None
        }
    }

    /// Shared access to the payload, for any live handle.
    pub fn data<'a>(&self, heap: &'a Heap<T>) -> (r: &'a T)
        requires
            heap.wf(),
            heap.holds(self),
        ensures
            Some(*r) == heap@[self.ptr()].1,
    {
        heap.blocks[self.ptr].data.as_ref().unwrap()
    }
}

} // verus!
