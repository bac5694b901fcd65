use std::mem::{align_of, size_of};

use raidsim::pool::PoolAllocator;

/// Where a value lies in memory, read from its `{:p}` form.
fn address<T>(value: &T) -> usize {
    let text = format!("{:p}", value);
    usize::from_str_radix(text.trim_start_matches("0x"), 16).expect("an address in hex")
}

#[test]
fn alloc_alignment_u8() {
    let mut pool: PoolAllocator<u8> = PoolAllocator::from_size(32).expect("pool creation failed");
    let align = align_of::<u8>();
    for _ in 0..32 {
        let slot = pool.allocate().expect("alloc should succeed");
        pool.write(&slot, 0);
        let addr = address(pool.read(&slot).unwrap());
        assert_eq!(
            addr % align,
            0,
            "u8 addr {:#x} not aligned to {}",
            addr,
            align
        );
    }
}

#[test]
fn alloc_alignment_u64() {
    let mut pool: PoolAllocator<u64> = PoolAllocator::from_size(32).expect("pool creation failed");
    let align = align_of::<u64>();
    for _ in 0..32 {
        let slot = pool.allocate().expect("alloc should succeed");
        pool.write(&slot, 0);
        let addr = address(pool.read(&slot).unwrap());
        assert_eq!(
            addr % align,
            0,
            "u64 addr {:#x} not aligned to {}",
            addr,
            align
        );
    }
}

#[test]
fn alloc_alignment_u128() {
    let mut pool: PoolAllocator<u128> = PoolAllocator::from_size(16).expect("pool creation failed");
    let align = align_of::<u128>();
    for _ in 0..16 {
        let slot = pool.allocate().expect("alloc should succeed");
        pool.write(&slot, 0);
        let addr = address(pool.read(&slot).unwrap());
        assert_eq!(
            addr % align,
            0,
            "u128 addr {:#x} not aligned to {}",
            addr,
            align
        );
    }
}

/// A 64-byte value made of words, so that it has the alignment of its widest field.
struct Aligned64 {
    _data: [u64; 8],
}

#[test]
fn alloc_alignment_struct_with_align() {
    let mut pool: PoolAllocator<Aligned64> =
        PoolAllocator::from_size(8).expect("pool creation failed");
    let align = align_of::<Aligned64>();
    for _ in 0..8 {
        let slot = pool.allocate().expect("alloc should succeed");
        pool.write(&slot, Aligned64 { _data: [0; 8] });
        let addr = address(pool.read(&slot).unwrap());
        assert_eq!(addr % align, 0, "Aligned64 addr {:#x} not aligned to {}", addr, align);
    }
}

#[test]
fn alloc_size_matches_type_size() {
    let mut pool: PoolAllocator<u64> = PoolAllocator::from_size(2).expect("pool creation failed");
    let s0 = pool.allocate().expect("alloc 0");
    let s1 = pool.allocate().expect("alloc 1");
    pool.write(&s0, 0);
    pool.write(&s1, 0);

    let addr0 = address(pool.read(&s0).unwrap());
    let addr1 = address(pool.read(&s1).unwrap());
    let diff = addr0.abs_diff(addr1);

    // Two slots taken one after the other lie at least one u64 apart.
    assert!(
        diff >= size_of::<u64>(),
        "slot distance {} < sizeof(u64)={}",
        diff,
        size_of::<u64>()
    );
}
