use raidsim::pool::{ElementGuard, PoolAllocator, PoolError};

#[test]
fn alloc_exact_capacity_all_succeed() {
    const LEN: usize = 64;
    let mut pool: PoolAllocator<u32> = PoolAllocator::from_size(LEN).expect("pool creation failed");

    let mut slots = Vec::new();
    for i in 0..LEN {
        let slot = pool
            .allocate()
            .unwrap_or_else(|_| panic!("alloc #{} should succeed", i));
        pool.write(&slot, i as u32);
        slots.push(slot.index());
    }
    assert_eq!(slots.len(), LEN);
}

#[test]
fn alloc_beyond_capacity_returns_err() {
    const LEN: usize = 8;
    let mut pool: PoolAllocator<u64> = PoolAllocator::from_size(LEN).expect("pool creation failed");
    let mut slots: Vec<ElementGuard<u64>> = Vec::new();

    for _ in 0..LEN {
        let g = pool.allocate().expect("alloc within capacity should succeed");
        slots.push(g);
    }
    // The pool is full.
    let result = pool.allocate();
    assert!(result.is_err(), "alloc beyond capacity should return Err");
}

#[test]
fn alloc_returns_distinct_addresses() {
    const LEN: usize = 32;
    let mut pool: PoolAllocator<u64> = PoolAllocator::from_size(LEN).expect("pool creation failed");

    let mut addrs = std::collections::HashSet::new();
    for i in 0..LEN {
        let slot = pool.allocate().expect("alloc should succeed");
        pool.write(&slot, i as u64);
        assert!(addrs.insert(slot.index()), "duplicate address returned : {i}");
    }
}

#[test]
fn alloc_returns_aligned_addresses() {
    const LEN: usize = 16;
    let mut pool: PoolAllocator<u128> =
        PoolAllocator::from_size(LEN).expect("pool creation failed");
    let align = std::mem::align_of::<u128>();

    for _ in 0..LEN {
        let slot = pool.allocate().expect("alloc should succeed");
        pool.write(&slot, 0);
        let text = format!("{:p}", pool.read(&slot).unwrap());
        let addr = usize::from_str_radix(text.trim_start_matches("0x"), 16).expect("hex address");
        assert_eq!(
            addr % align,
            0,
            "address {:#x} not aligned to {}",
            addr,
            align
        );
    }
}

#[test]
fn alloc_writable_and_readable() {
    let mut pool: PoolAllocator<u32> = PoolAllocator::from_size(4).expect("pool creation failed");

    let slot = pool.allocate().expect("alloc should succeed");
    pool.write(&slot, 0xDEAD_BEEF);
    assert_eq!(*pool.read(&slot).unwrap(), 0xDEAD_BEEF);
}

#[test]
fn a_fresh_pool_hands_out_every_slot_once_then_fails() {
    const LEN: usize = 5;
    let mut pool: PoolAllocator<u64> = PoolAllocator::from_size(LEN).expect("pool creation failed");
    let indices: Vec<usize> = (0..LEN).map(|_| pool.allocate().expect("a free slot").index()).collect();
    assert_eq!(indices, vec![0, 1, 2, 3, 4]);
    assert!(matches!(pool.allocate(), Err(PoolError::MemoryAllocateFailed)));
}
