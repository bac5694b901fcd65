use raidsim::pool::PoolAllocator;

use std::collections::HashSet;

#[test]
fn stress_random_alloc_dealloc_integrity() {
    const LEN: usize = 64;
    let mut pool: PoolAllocator<u64> = PoolAllocator::from_size(LEN).expect("pool creation failed");

    // A plain deterministic generator.
    let mut state: u64 = 0x1234_5678_9ABC_DEF0;
    let live_slots: Vec<usize> = Vec::new();

    let mut alloc_count = 0usize;

    for _ in 0..1000 {
        state = state
            .wrapping_mul(6364136223846793005)
            .wrapping_add(1442695040888963407);
        let should_alloc = (state % 2 == 0) || live_slots.is_empty();

        if should_alloc && live_slots.len() < LEN {
            match pool.allocate() {
                Ok(slot) => {
                    alloc_count += 1;
                    // The slot goes out of use at once.
                    pool.dealloc(slot);
                }
                Err(_) => {
                    // A full pool refusing is expected.
                }
            }
        }
    }

    // At least some allocations succeeded.
    assert!(alloc_count > 0, "at least some allocs should succeed");
}

#[test]
fn stress_fill_drain_repeat() {
    const LEN: usize = 32;
    let mut pool: PoolAllocator<u32> = PoolAllocator::from_size(LEN).expect("pool creation failed");

    for round in 0..10 {
        // Fill.
        let mut slots = Vec::new();
        for _ in 0..LEN {
            slots.push(
                pool.allocate()
                    .unwrap_or_else(|_| panic!("round {} alloc failed", round)),
            );
        }
        assert!(
            pool.allocate().is_err(),
            "round {}: pool should be full",
            round
        );

        // Give half back.
        for _ in 0..(LEN / 2) {
            let slot = slots.pop().unwrap();
            pool.dealloc(slot);
        }

        // Take half again; each slot goes out of use at once.
        for _ in 0..(LEN / 2) {
            let slot = pool
                .allocate()
                .expect("realloc after partial drain should succeed");
            pool.dealloc(slot);
        }

        // Give the rest back.
        while let Some(slot) = slots.pop() {
            pool.dealloc(slot);
        }
    }
}

#[test]
fn stress_interleaved_alloc_dealloc_no_overlap() {
    const LEN: usize = 16;
    let mut pool: PoolAllocator<u64> = PoolAllocator::from_size(LEN).expect("pool creation failed");

    // Take 8.
    let mut slots = Vec::new();
    for _ in 0..8 {
        slots.push(pool.allocate().expect("alloc should succeed"));
    }

    // Collect their slots.
    let mut addrs: HashSet<usize> = HashSet::new();
    for s in &slots {
        let addr = s.index();
        assert!(addrs.insert(addr), "duplicate address in interleaved test");
    }

    // Give 4 back.
    for _ in 0..4 {
        let s = slots.pop().unwrap();
        pool.dealloc(s);
    }

    // Take 4 again: none may be a slot still in use.
    for _ in 0..4 {
        let s = pool.allocate().expect("realloc should succeed");
        let addr = s.index();
        assert!(
            !addrs.contains(&addr) || !slots.iter().any(|x| x.index() == addr),
            "new alloc overlaps with live slot"
        );
    }
}
