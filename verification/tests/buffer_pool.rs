use fry_tftp_server::tftp::buffer_pool::BufferPool;

#[test]
fn test_acquire_release_cycle() {
    let mut pool = BufferPool::new(4, 1024);

    // First acquire — miss (pool empty)
    let buf1 = pool.acquire();
    assert_eq!(buf1.len(), 1024);
    assert_eq!(pool.misses(), 1);

    // Release and re-acquire — hit
    pool.release(buf1);
    assert_eq!(pool.available(), 1);

    let buf2 = pool.acquire();
    assert_eq!(buf2.len(), 1024);
    assert_eq!(pool.hits(), 1);
    assert_eq!(pool.available(), 0);
}

#[test]
fn test_capacity_limit() {
    let mut pool = BufferPool::new(2, 512);
    let b1 = pool.acquire();
    let b2 = pool.acquire();
    let b3 = pool.acquire();

    pool.release(b1);
    pool.release(b2);
    pool.release(b3); // exceeds capacity — dropped

    assert_eq!(pool.available(), 2);
}

#[test]
fn test_resize_drains_and_zeroes() {
    let mut pool = BufferPool::new(3, 4);
    let mut b = pool.acquire();
    b[0] = 7;
    pool.release(b);
    pool.update_buf_size(8);
    assert_eq!(pool.available(), 0);
    assert_eq!(pool.buf_size(), 8);
    pool.release(vec![1, 2, 3]);
    let again = pool.acquire();
    assert_eq!(again, vec![0u8; 8]);
    assert_eq!(pool.hits(), 1);
}
