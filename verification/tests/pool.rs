use deterix::{PacketBufferPool, PACKET_POOL_SIZE, PACKET_SIZE};

#[test]
fn pool_lends_every_buffer_once() {
    let mut pool = PacketBufferPool::new();
    let mut taken = Vec::new();
    for _ in 0..PACKET_POOL_SIZE {
        let b = pool.take();
        assert!(b.is_some());
        taken.push(b.unwrap());
    }
    assert!(pool.take().is_none());
    let b = taken.pop().unwrap();
    pool.release(b);
    assert!(pool.take().is_some());
    assert!(pool.take().is_none());
}

#[test]
fn fresh_buffer_is_zeroed_and_full_size() {
    let mut pool = PacketBufferPool::new();
    let b = pool.take().unwrap();
    assert_eq!(b.as_slice().len(), PACKET_SIZE);
    assert!(b.as_slice().iter().all(|x| *x == 0));
    assert_eq!(b.as_bytes().len(), PACKET_SIZE);
}

#[test]
fn released_place_is_taken_first_and_keeps_its_bytes() {
    let mut pool = PacketBufferPool::new();
    let a = pool.take().unwrap();
    let mut b = pool.take().unwrap();
    let c = pool.take().unwrap();
    b.as_mut_slice()[0] = 0x42;
    b.as_mut_slice()[PACKET_SIZE - 1] = 0x17;
    pool.release(b);
    let again = pool.take().unwrap();
    assert_eq!(again.as_slice()[0], 0x42);
    assert_eq!(again.as_slice()[PACKET_SIZE - 1], 0x17);
    let next = pool.take().unwrap();
    assert_eq!(next.as_slice()[0], 0);
    pool.release(a);
    pool.release(c);
    pool.release(again);
    pool.release(next);
}

#[test]
fn set_size_limits_the_packet_bytes() {
    let mut pool = PacketBufferPool::new();
    let mut b = pool.take().unwrap();
    b.as_mut_slice()[0] = 9;
    b.as_mut_slice()[1] = 8;
    b.as_mut_slice()[2] = 7;
    b.set_size(2);
    assert_eq!(b.as_bytes(), &[9u8, 8][..]);
    assert_eq!(b.as_slice().len(), PACKET_SIZE);
}

#[test]
fn take_then_release_restores_the_pool() {
    let mut pool = PacketBufferPool::new();
    let first = pool.take().unwrap();
    pool.release(first);
    let mut count = 0;
    let mut held = Vec::new();
    while let Some(b) = pool.take() {
        count += 1;
        held.push(b);
    }
    assert_eq!(count, PACKET_POOL_SIZE);
}

#[test]
fn only_lent_buffers_may_be_released() {
    let mut pool = PacketBufferPool::new();
    let a = pool.take().unwrap();
    assert!(pool.may_release(&a));
    let mut other = PacketBufferPool::new();
    assert!(!other.may_release(&a));
    pool.release(a);
    let b = other.take().unwrap();
    assert!(other.may_release(&b));
    other.release(b);
}
