use raidsim::pool::PoolAllocator;

#[derive(Debug, PartialEq)]
struct Tagged {
    tag: u32,
}

#[test]
fn from_size_creates_pool_of_given_capacity() {
    let pool = PoolAllocator::<Tagged>::from_size(4);
    assert!(pool.is_ok());
}

#[test]
fn from_size_zero_should_empty() {
    let result = PoolAllocator::<Tagged>::from_size(0);
    match result {
        Ok(mut pool) => {
            assert!(pool.allocate().is_err());
        }
        Err(_) => {
            // Refusing a zero-sized pool outright would be valid too.
        }
    }
}

#[test]
fn tracked_value_survives_in_its_slot() {
    let mut pool = PoolAllocator::<Tagged>::from_size(2).expect("pool creation failed");
    let slot = pool.allocate().expect("alloc should succeed");
    pool.write(&slot, Tagged { tag: 7 });
    assert_eq!(pool.read(&slot), Some(&Tagged { tag: 7 }));
}
