use raidsim::pool::PoolAllocator;

#[test]
fn dealloc_then_alloc_reuses_slot() {
    const LEN: usize = 4;
    let mut pool: PoolAllocator<u64> = PoolAllocator::from_size(LEN).expect("pool creation failed");

    // Fill the pool.
    let s0 = pool.allocate().expect("alloc 0");
    let s1 = pool.allocate().expect("alloc 1");
    let s2 = pool.allocate().expect("alloc 2");
    let s3 = pool.allocate().expect("alloc 3");

    let addr_before = s1.index();

    // Give s1 back.
    pool.dealloc(s1);

    // The slot just given back is the next one handed out.
    let s_reuse = pool.allocate().expect("alloc after dealloc should succeed");
    let addr_after = s_reuse.index();

    assert_eq!(
        addr_before, addr_after,
        "reused slot should have same address"
    );

    let _ = (s0, s2, s3);
}

#[test]
fn dealloc_frees_capacity() {
    const LEN: usize = 2;
    let mut pool: PoolAllocator<u32> = PoolAllocator::from_size(LEN).expect("pool creation failed");

    let s0 = pool.allocate().expect("alloc 0");
    let s1 = pool.allocate().expect("alloc 1");

    // The pool is full.
    assert!(pool.allocate().is_err(), "pool should be full");

    // Give one back.
    pool.dealloc(s0);

    // One can be taken again.
    let s2 = pool.allocate().expect("alloc after dealloc should succeed");
    let _ = (s1, s2);
}

#[test]
fn dealloc_all_then_realloc_all() {
    const LEN: usize = 16;
    let mut pool: PoolAllocator<u64> = PoolAllocator::from_size(LEN).expect("pool creation failed");

    // Take every slot.
    let mut slots = Vec::new();
    for _ in 0..LEN {
        slots.push(pool.allocate().expect("alloc should succeed"));
    }

    // Give them back in reverse.
    while let Some(slot) = slots.pop() {
        pool.dealloc(slot);
    }

    // Every slot can be taken again.
    let mut count = 0;
    for _ in 0..LEN {
        let _slot = pool.allocate().expect("realloc should succeed");
        count += 1;
    }
    assert_eq!(count, LEN);
}
