use tunneler::PairPool;

#[test]
fn new_pool_is_empty() {
    let pool: PairPool<u32, u32> = PairPool::new(5);
    assert_eq!(5, pool.max_connections());
    assert_eq!(0, pool.available_connections());
}

#[test]
fn pool_stock_and_get() {
    let mut pool: PairPool<u32, u32> = PairPool::new(5);
    for id in 0..5u64 {
        pool.stock(id, id as u32, id as u32 + 100);
    }
    assert_eq!(5, pool.available_connections());
    let got = pool.get();
    assert_eq!(Some((0, 0, 100)), got);
    assert_eq!(4, pool.available_connections());
}

/// A pair whose read half is dropped first, both halves valid, becomes
/// available again only once the write half is also back.
#[test]
fn pool_return_drop_read_con_first() {
    let mut pool: PairPool<u32, u32> = PairPool::new(5);
    for id in 0..5u64 {
        pool.stock(id, id as u32, id as u32 + 100);
    }
    let (id, read, write) = pool.get().unwrap();
    assert_eq!(4, pool.available_connections());
    assert_eq!(0, pool.recovered_read_count());

    assert!(!pool.report_read(id, true, read));
    assert_eq!(1, pool.recovered_read_count());
    assert_eq!(4, pool.available_connections());

    assert!(pool.report_write(id, true, write));
    assert_eq!(0, pool.recovered_read_count());
    assert_eq!(5, pool.available_connections());
}

/// The symmetric order: write half back first, then the read half.
#[test]
fn pool_return_drop_write_con_first() {
    let mut pool: PairPool<u32, u32> = PairPool::new(5);
    for id in 0..5u64 {
        pool.stock(id, id as u32, id as u32 + 100);
    }
    let (id, read, write) = pool.get().unwrap();

    assert!(!pool.report_write(id, true, write));
    assert_eq!(1, pool.recovered_write_count());

    assert!(pool.report_read(id, true, read));
    assert_eq!(0, pool.recovered_write_count());
    assert_eq!(5, pool.available_connections());
}

/// An invalid first half retires the pair: the second half, though valid, is
/// discarded and the pair never becomes available again.
#[test]
fn pool_return_drop_invalid_valid() {
    let mut pool: PairPool<u32, u32> = PairPool::new(5);
    for id in 0..5u64 {
        pool.stock(id, id as u32, id as u32 + 100);
    }
    let (id, read, write) = pool.get().unwrap();

    assert!(!pool.report_read(id, false, read));
    assert_eq!(1, pool.invalid_id_count());

    assert!(!pool.report_write(id, true, write));
    assert_eq!(4, pool.available_connections());
    assert_eq!(0, pool.recovered_read_count());
    assert_eq!(0, pool.recovered_write_count());
    assert_eq!(0, pool.invalid_id_count());
}

/// A valid first half still waits; an invalid second half discards both.
#[test]
fn pool_return_drop_valid_invalid() {
    let mut pool: PairPool<u32, u32> = PairPool::new(5);
    for id in 0..5u64 {
        pool.stock(id, id as u32, id as u32 + 100);
    }
    let (id, read, write) = pool.get().unwrap();

    assert!(!pool.report_read(id, true, read));
    assert_eq!(1, pool.recovered_read_count());

    assert!(!pool.report_write(id, false, write));
    assert_eq!(4, pool.available_connections());
    assert_eq!(0, pool.recovered_read_count());
    assert_eq!(0, pool.recovered_write_count());
    assert_eq!(0, pool.invalid_id_count());
}

/// Pool pair integrity on a concrete run: with every half valid, available
/// halves plus held halves stay at twice the stocked pairs; an invalidated
/// pair leaves the count for good and never re-enters.
#[test]
fn pool_conservation_scenario() {
    let mut pool: PairPool<u32, u32> = PairPool::new(2);
    pool.stock(1, 1, 101);
    pool.stock(2, 2, 102);

    // Both pairs out: 0 available, 4 halves held.
    let (ida, ra, wa) = pool.get().unwrap();
    let (idb, rb, wb) = pool.get().unwrap();
    assert_eq!(0, pool.available_connections() * 2 + pool.recovered_read_count()
        + pool.recovered_write_count());

    // Pair a comes back valid: 2 halves home again.
    pool.report_read(ida, true, ra);
    pool.report_write(ida, true, wa);
    assert_eq!(1, pool.available_connections());

    // Pair b is invalidated: it never becomes available again.
    pool.report_write(idb, false, wb);
    pool.report_read(idb, true, rb);
    assert_eq!(1, pool.available_connections());
    let first = pool.get().unwrap();
    assert_eq!(ida, first.0);
    assert!(pool.get().is_none());
}
