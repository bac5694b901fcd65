//! A fixed-capacity pool of slots, handed out and taken back in last-in, first-out order.
//!
//! The free slots form a list threaded through the slots themselves: each free slot holds the
//! index of the next free one, and the pool keeps the first. Taking a slot pops the list; giving
//! one back pushes it.
use core::marker::PhantomData;
use vstd::layout::size_of as spec_size_of;
use vstd::prelude::*;

verus! {

/// One slot of the pool: its value, once written, and the next free slot while it is free.
pub struct Element<T> {
    pub element: Option<T>,
    pub next: usize,
}

/// A slot taken from a pool. It names the slot; the pool reads and writes the value.
pub struct ElementGuard<T> {
    index: usize,
    _marker: PhantomData<T>,
}

impl<T> ElementGuard<T> {
    pub closed spec fn spec_index(&self) -> usize {
        self.index
    }

    /// Which slot of the pool this is.
    pub fn index(&self) -> (r: usize)
        ensures
            r == self.spec_index(),
    {
        self.index
    }
}

/// Why a pool could not be made or could not hand out a slot.
#[derive(Debug, Clone, Copy, PartialEq, Eq, Structural)]
pub enum PoolError {
    /// The size in bytes of the pool does not fit a memory layout.
    LayoutTooLarge,
    /// Every slot is taken.
    MemoryAllocateFailed,
}

pub struct PoolAllocator<T> {
    arr: Vec<Element<T>>,
    head: usize,
    len: usize,
    used: usize,
    free: Ghost<Seq<usize>>,
}

/// The bytes of `n` slots exceed what a memory layout may hold.
pub open spec fn layout_too_large<T>(n: usize) -> bool {
    n * spec_size_of::<Element<T>>() > isize::MAX
}

/// One call of `allocate` on a pool whose free slots were `before`, leaving `after` and
/// returning `r`: the first free slot is handed out, or the call fails when none is free.
pub open spec fn allocate_step<T>(
    before: Seq<usize>,
    after: Seq<usize>,
    r: Result<ElementGuard<T>, PoolError>,
) -> bool {
    &&& before.len() == 0 ==> r == Err::<ElementGuard<T>, PoolError>(PoolError::MemoryAllocateFailed)
        && after == before
    &&& before.len() > 0 ==> (r matches Ok(g) && g.spec_index() == before[0] && after
        == before.drop_first())
}

impl<T> PoolAllocator<T> {
    /// The free slots, the next one to be handed out first.
    pub closed spec fn free_slots(&self) -> Seq<usize> {
        self.free@
    }

    /// Number of slots in the pool.
    pub closed spec fn capacity(&self) -> nat {
        self.len as nat
    }

    /// Values written to the slots.
    pub closed spec fn values(&self) -> Seq<Option<T>> {
        self.arr@.map_values(|e: Element<T>| e.element)
    }

    /// Slot `i` is handed out.
    pub open spec fn is_allocated(&self, i: usize) -> bool {
        i < self.capacity() && !self.free_slots().contains(i)
    }

    /// The free list threads through the slots, holds each free slot once, and with the slots
    /// handed out accounts for every slot.
    pub closed spec fn wf(&self) -> bool {
        &&& self.arr@.len() == self.len
        &&& self.used + self.free@.len() == self.len
        &&& forall|k: int| 0 <= k < self.free@.len() ==> #[trigger] self.free@[k] < self.len
        &&& forall|a: int, b: int|
            0 <= a < b < self.free@.len() ==> #[trigger] self.free@[a] != #[trigger] self.free@[b]
        &&& self.free@.len() > 0 ==> self.head == self.free@[0]
        &&& forall|k: int|
            0 <= k < self.free@.len() - 1 ==> #[trigger] self.arr@[self.free@[k] as int].next
                == self.free@[k + 1]
    }

    /// Number of slots handed out.
    pub fn used(&self) -> (r: usize)
        requires
            self.wf(),
        ensures
            r == self.capacity() - self.free_slots().len(),
    {
        self.used
    }

    /// Number of slots in the pool.
    pub fn len(&self) -> (r: usize)
        ensures
            r == self.capacity(),
    {
        self.len
    }

    /// A pool of `pool_size` free slots, handed out from slot 0 up. Fails when the pool's
    /// bytes do not fit a memory layout.
    pub fn from_size(pool_size: usize) -> (r: Result<Self, PoolError>)
        ensures
            layout_too_large::<T>(pool_size) <==> r == Err::<Self, PoolError>(
                PoolError::LayoutTooLarge,
            ),
            r matches Ok(p) ==> p.wf() && p.capacity() == pool_size && p.free_slots() == Seq::new(
                pool_size as nat,
                |i: int| i as usize,
            ) && p.values() == Seq::new(pool_size as nat, |i: int| None::<T>),
            r is Ok || r == Err::<Self, PoolError>(PoolError::LayoutTooLarge),
    {
        let elem_size = core::mem::size_of::<Element<T>>();
        let bytes = pool_size.checked_mul(elem_size);
        match bytes {
            None => {
                return Err(PoolError::LayoutTooLarge);
            },
            Some(b) => {
                if b > isize::MAX as usize {
                    return Err(PoolError::LayoutTooLarge);
                }
            },
        }
        let mut arr: Vec<Element<T>> = Vec::new();
        let mut i: usize = 0;
        while i < pool_size
            invariant
                i <= pool_size,
                arr@.len() == i,
                forall|k: int| 0 <= k < i ==> #[trigger] arr@[k].next == k + 1,
                forall|k: int| 0 <= k < i ==> (#[trigger] arr@[k]).element is None,
            decreases pool_size - i,
        {
            arr.push(Element { element: None, next: i + 1 });
            i = i + 1;
        }
        let ghost free = Seq::new(pool_size as nat, |i: int| i as usize);
        let pool = PoolAllocator { arr, head: 0, len: pool_size, used: 0, free: Ghost(free) };
        assert(pool.values() =~= Seq::new(pool_size as nat, |i: int| None::<T>));
        Ok(pool)
    }

    /// Hands out the first free slot. Fails when every slot is taken.
    pub fn allocate(&mut self) -> (r: Result<ElementGuard<T>, PoolError>)
        requires
            old(self).wf(),
        ensures
            final(self).wf(),
            final(self).capacity() == old(self).capacity(),
            final(self).values() == old(self).values(),
            old(self).free_slots().len() == 0 ==> r == Err::<ElementGuard<T>, PoolError>(
                PoolError::MemoryAllocateFailed,
            ) && final(self).free_slots() == old(self).free_slots(),
            old(self).free_slots().len() > 0 ==> (r matches Ok(g) && g.spec_index() == old(
                self,
            ).free_slots()[0] && final(self).free_slots() == old(self).free_slots().drop_first()),
            r matches Ok(g) ==> !old(self).is_allocated(g.spec_index()) && final(self).is_allocated(
                g.spec_index(),
            ),
            allocate_step(old(self).free_slots(), final(self).free_slots(), r),
    {
        if self.used == self.len {
            return Err(PoolError::MemoryAllocateFailed);
        }
        let idx = self.head;
        self.head = self.arr[idx].next;
        self.used = self.used + 1;
        let ghost old_free = self.free@;
        self.free = Ghost(old_free.drop_first());
        proof {
            assert(old_free[0] == idx);
            assert(!self.free@.contains(idx)) by {
                if self.free@.contains(idx) {
                    let k = choose|k: int| 0 <= k < self.free@.len() && self.free@[k] == idx;
                    assert(old_free[0] != old_free[k + 1]);
                }
            }
            assert(old_free.contains(idx));
            assert forall|a: int, b: int|
                0 <= a < b < self.free@.len() implies #[trigger] self.free@[a]
                != #[trigger] self.free@[b] by {
                assert(old_free[a + 1] != old_free[b + 1]);
            }
            assert forall|k: int|
                0 <= k < self.free@.len() - 1 implies #[trigger] self.arr@[self.free@[k] as int].next
                == self.free@[k + 1] by {
                assert(self.free@[k] == old_free[k + 1]);
            }
            assert forall|k: int| 0 <= k < self.free@.len() implies #[trigger] self.free@[k]
                < self.len by {
                assert(self.free@[k] == old_free[k + 1]);
            }
        }
        Ok(ElementGuard { index: idx, _marker: PhantomData })
    }

    /// Takes a slot back; it is the next to be handed out.
    pub fn dealloc(&mut self, guard: ElementGuard<T>)
        requires
            old(self).wf(),
            old(self).is_allocated(guard.spec_index()),
        ensures
            final(self).wf(),
            final(self).capacity() == old(self).capacity(),
            final(self).values() == old(self).values(),
            final(self).free_slots() == seq![guard.spec_index()] + old(self).free_slots(),
    {
        let idx = guard.index;
        let ghost old_free = self.free@;
        let ghost old_values = self.values();
        proof {
            lemma_free_list_shorter(old_free, self.len, idx);
        }
        let old_head = self.head;
        let slot = &mut self.arr[idx];
        slot.next = old_head;
        self.head = idx;
        self.used = self.used - 1;
        self.free = Ghost(seq![idx] + old_free);
        proof {
            assert(self.values() =~= old_values);
            assert forall|a: int, b: int|
                0 <= a < b < self.free@.len() implies #[trigger] self.free@[a]
                != #[trigger] self.free@[b] by {
                if a == 0 {
                    assert(self.free@[b] == old_free[b - 1]);
                    assert(old_free.contains(self.free@[b]));
                } else {
                    assert(old_free[a - 1] != old_free[b - 1]);
                }
            }
            assert forall|k: int|
                0 <= k < self.free@.len() - 1 implies #[trigger] self.arr@[self.free@[k] as int].next
                == self.free@[k + 1] by {
                if k > 0 {
                    assert(self.free@[k] == old_free[k - 1]);
                    assert(self.free@[k] != idx) by {
                        assert(old_free.contains(old_free[k - 1]));
                    }
                }
            }
            assert forall|k: int| 0 <= k < self.free@.len() implies #[trigger] self.free@[k]
                < self.len by {
                if k > 0 {
                    assert(self.free@[k] == old_free[k - 1]);
                }
            }
        }
    }

    /// Writes the value of a slot that is handed out.
    pub fn write(&mut self, guard: &ElementGuard<T>, value: T)
        requires
            old(self).wf(),
            old(self).is_allocated(guard.spec_index()),
        ensures
            final(self).wf(),
            final(self).capacity() == old(self).capacity(),
            final(self).free_slots() == old(self).free_slots(),
            final(self).values() == old(self).values().update(guard.spec_index() as int, Some(value)),
    {
        let idx = guard.index;
        let ghost old_values = self.values();
        let ghost old_arr = self.arr@;
        let next = self.arr[idx].next;
        self.arr.set(idx, Element { element: Some(value), next });
        proof {
            assert(self.values() =~= old_values.update(idx as int, Some(value)));
            assert forall|k: int|
                0 <= k < self.free@.len() - 1 implies #[trigger] self.arr@[self.free@[k] as int].next
                == self.free@[k + 1] by {
                assert(old_arr[self.free@[k] as int].next == self.free@[k + 1]);
            }
        }
    }

    /// The value of a slot, if one was ever written to it.
    pub fn read(&self, guard: &ElementGuard<T>) -> (r: Option<&T>)
        requires
            self.wf(),
            guard.spec_index() < self.capacity(),
        ensures
            r is None <==> self.values()[guard.spec_index() as int] is None,
            r matches Some(v) ==> self.values()[guard.spec_index() as int] == Some(*v),
    {
        match &self.arr[guard.index].element {
            Some(v) => Some(v),
            None => None,
        }
    }
}

/// Distinct slots below `n` that leave out one slot below `n` number fewer than `n`.
proof fn lemma_free_list_shorter(free: Seq<usize>, n: usize, x: usize)
    requires
        forall|k: int| 0 <= k < free.len() ==> #[trigger] free[k] < n,
        forall|a: int, b: int| 0 <= a < b < free.len() ==> #[trigger] free[a] != #[trigger] free[b],
        !free.contains(x),
        x < n,
    ensures
        free.len() < n,
{
    broadcast use vstd::set_lib::range_set_properties;

    assert(free.no_duplicates()) by {
        assert forall|i: int, j: int|
            0 <= i < free.len() && 0 <= j < free.len() && i != j implies free[i] != free[j] by {
            if i < j {
                assert(free[i] != free[j]);
            } else {
                assert(free[j] != free[i]);
            }
        }
    }
    free.unique_seq_to_set();
    let all = Set::<usize>::range(0, n);
    let rest = all.remove(x);
    assert(all.contains(x));
    assert(free.to_set().subset_of(rest)) by {
        assert forall|v: usize| free.to_set().contains(v) implies rest.contains(v) by {
            let k = choose|k: int| 0 <= k < free.len() && free[k] == v;
            assert(free[k] < n);
        }
    }
    vstd::set_lib::lemma_len_subset(free.to_set(), rest);
}

/// Giving a slot back and taking one again hands out that same slot and leaves the free slots
/// as they were: `mid` is `before` after `dealloc(given)`, and `after` is `mid` after an
/// `allocate` that handed out `taken`.
pub proof fn lemma_alloc_undoes_dealloc<T>(
    before: PoolAllocator<T>,
    mid: PoolAllocator<T>,
    after: PoolAllocator<T>,
    given: ElementGuard<T>,
    taken: ElementGuard<T>,
)
    requires
        mid.free_slots() == seq![given.spec_index()] + before.free_slots(),
        taken.spec_index() == mid.free_slots()[0],
        after.free_slots() == mid.free_slots().drop_first(),
    ensures
        taken.spec_index() == given.spec_index(),
        after.free_slots() == before.free_slots(),
{
    assert((seq![given.spec_index()] + before.free_slots()).drop_first() =~= before.free_slots());
}

/// What a write puts in a slot is what a read of that slot gives back, and every other slot
/// keeps what it held: `before` and `after` are a pool before and after `write(guard, value)`.
pub proof fn lemma_read_after_write<T>(
    before: PoolAllocator<T>,
    after: PoolAllocator<T>,
    guard: ElementGuard<T>,
    value: T,
    other: usize,
)
    requires
        before.wf(),
        before.is_allocated(guard.spec_index()),
        after.capacity() == before.capacity(),
        after.values() == before.values().update(guard.spec_index() as int, Some(value)),
    ensures
        after.values()[guard.spec_index() as int] == Some(value),
        other < before.capacity() && other != guard.spec_index() ==> after.values()[other as int]
            == before.values()[other as int],
{
    assert(before.values().len() == before.capacity());
}

/// After `k` of the calls of a run of `allocate` from a fresh pool of `n` slots, slots `0` to
/// `k - 1` have been handed out in order and the rest are free, in order.
proof fn lemma_fill_prefix<T>(
    pools: Seq<PoolAllocator<T>>,
    results: Seq<Result<ElementGuard<T>, PoolError>>,
    n: usize,
    k: int,
)
    requires
        pools.len() == results.len() + 1,
        0 <= k <= n,
        k <= results.len(),
        pools[0].free_slots() == Seq::new(n as nat, |i: int| i as usize),
        forall|j: int|
            0 <= j < results.len() ==> allocate_step(
                pools[j].free_slots(),
                pools[j + 1].free_slots(),
                #[trigger] results[j],
            ),
    ensures
        pools[k].free_slots() == Seq::new((n - k) as nat, |i: int| (i + k) as usize),
        forall|j: int| 0 <= j < k ==> (#[trigger] results[j] matches Ok(g) && g.spec_index() == j),
    decreases k,
{
    if k == 0 {
        assert(pools[0].free_slots() =~= Seq::new((n - 0) as nat, |i: int| (i + 0) as usize));
    } else {
        lemma_fill_prefix(pools, results, n, k - 1);
        let before = pools[k - 1].free_slots();
        assert(allocate_step(before, pools[k].free_slots(), results[k - 1]));
        assert(before.len() > 0);
        assert(before[0] == (k - 1) as usize);
        assert(pools[k].free_slots() =~= Seq::new((n - k) as nat, |i: int| (i + k) as usize));
    }
}

/// From a fresh pool of `n` slots, `n` calls of `allocate` hand out slots `0`, `1`, ... in
/// turn, so no slot twice, and the next call fails: `pools[k + 1]` is `pools[k]` after the call
/// that returned `results[k]`.
pub proof fn lemma_fill_then_fail<T>(
    pools: Seq<PoolAllocator<T>>,
    results: Seq<Result<ElementGuard<T>, PoolError>>,
    n: usize,
)
    requires
        pools.len() == results.len() + 1,
        results.len() == n + 1,
        pools[0].free_slots() == Seq::new(n as nat, |i: int| i as usize),
        forall|j: int|
            0 <= j < results.len() ==> allocate_step(
                pools[j].free_slots(),
                pools[j + 1].free_slots(),
                #[trigger] results[j],
            ),
    ensures
        forall|k: int| 0 <= k < n ==> (#[trigger] results[k] matches Ok(g) && g.spec_index() == k),
        forall|a: int, b: int|
            0 <= a < b < n ==> (#[trigger] results[a])->Ok_0.spec_index() != (
            #[trigger] results[b])->Ok_0.spec_index(),
        results[n as int] == Err::<ElementGuard<T>, PoolError>(PoolError::MemoryAllocateFailed),
{
    lemma_fill_prefix(pools, results, n, n as int);
    assert(pools[n as int].free_slots().len() == 0);
    assert(allocate_step(pools[n as int].free_slots(), pools[n + 1].free_slots(), results[n as int]));
    assert forall|a: int, b: int|
        0 <= a < b < n implies (#[trigger] results[a])->Ok_0.spec_index() != (
        #[trigger] results[b])->Ok_0.spec_index() by {
        assert(results[a] matches Ok(g) && g.spec_index() == a);
        assert(results[b] matches Ok(g) && g.spec_index() == b);
    }
}

/// A slot is never handed out twice while it is out: after `allocate` hands out `first`, the
/// next `allocate` on that pool hands out a different slot, since it takes only slots that
/// were free.
pub proof fn lemma_allocations_distinct<T>(
    mid: PoolAllocator<T>,
    first: ElementGuard<T>,
    second: ElementGuard<T>,
)
    requires
        mid.is_allocated(first.spec_index()),
        !mid.is_allocated(second.spec_index()),
    ensures
        first.spec_index() != second.spec_index(),
{
}

} // verus!
