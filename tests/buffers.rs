use ibv::default::MIN_LENGTH_TO_NOTIFY_RELEASE;
use ibv::mr::{LocalBuf, RecvBuffer, RemoteBuf, RemoteBufManager, RemoteMR, SendBuffer};
use ibv::ring::Ring;

#[test]
fn ring_exact_fit_does_not_wrap() {
    let mut r = Ring::new(1000, 1100);
    assert_eq!(r.reserve(60), Some(1000));
    assert_eq!(r.reserve(40), Some(1060));
    assert_eq!(r.index, 1100);
}

#[test]
fn ring_one_more_byte_wraps() {
    let mut r = Ring::new(1000, 1100);
    assert_eq!(r.reserve(60), Some(1000));
    r.advance(60);
    assert_eq!(r.reserve(41), Some(1000));
    assert_eq!(r.index, 1041);
}

#[test]
fn ring_waits_instead_of_overrunning() {
    let mut r = Ring::new(0, 100);
    assert_eq!(r.reserve(70), Some(0));
    assert_eq!(r.reserve(40), None);
    assert_eq!(r.index, 70);
    r.advance(70);
    assert_eq!(r.reserve(40), Some(0));
    assert_eq!(r.reserve(29), Some(40));
    assert_eq!(r.reserve(2), None);
    assert_eq!(r.used_bytes(), 69 + 30);
}

#[test]
fn ring_whole_capacity_from_empty() {
    let mut r = Ring::new(0, 100);
    assert_eq!(r.reserve(100), Some(0));
    assert_eq!(r.used_bytes(), 100);
    assert_eq!(r.reserve(1), None);
    r.advance(100);
    assert_eq!(r.used_bytes(), 0);
}

#[test]
fn remote_alloc_and_update() {
    let mut m = RemoteBufManager::new(RemoteMR::new(1000, 100, 42));
    assert_eq!(m.capacity(), 100);
    assert_eq!(m.try_alloc(60), Some(RemoteBuf { addr: 1000, length: 60, rkey: 42 }));
    assert_eq!(m.try_alloc(40), Some(RemoteBuf { addr: 1060, length: 40, rkey: 42 }));
    assert_eq!(m.head(), 1100);
    assert_eq!(m.try_alloc(1), None);
    m.update(60);
    assert_eq!(m.tail(), 1060);
    assert_eq!(m.try_alloc(60), None);
    assert_eq!(m.try_alloc(59), Some(RemoteBuf { addr: 1000, length: 59, rkey: 42 }));
    assert_eq!(m.head(), 1059);
    m.update(40);
    assert_eq!(m.tail(), 1100);
    m.update(59);
    assert_eq!(m.tail(), 1059);
    assert_eq!(m.used(), 0);
}

#[test]
fn remote_wrap_leaves_head_at_left_plus_request() {
    let mut m = RemoteBufManager::new(RemoteMR::new(1000, 100, 1));
    m.try_alloc(60).unwrap();
    m.update(60);
    let b = m.try_alloc(41).unwrap();
    assert_eq!(b.addr, 1000);
    assert_eq!(m.head(), 1041);
}

#[test]
fn remote_zero_credit_is_ignored() {
    let mut m = RemoteBufManager::new(RemoteMR::new(1000, 100, 1));
    m.try_alloc(30).unwrap();
    let (head, tail, used) = (m.head(), m.tail(), m.used());
    m.update(0);
    assert_eq!((m.head(), m.tail(), m.used()), (head, tail, used));
}

#[test]
fn remote_update_wraps_at_right() {
    let mut m = RemoteBufManager::new(RemoteMR::new(0, 100, 1));
    m.try_alloc(90).unwrap();
    m.update(90);
    m.try_alloc(20).unwrap();
    m.update(20);
    assert_eq!(m.tail(), 20);
}

#[test]
fn send_pool_used_is_sum_of_in_flight() {
    let mut sb = SendBuffer::new(vec![0u8; 100], 5000, 9);
    let (a, id_a) = sb.try_alloc(30).unwrap();
    let (b, id_b) = sb.try_alloc(20).unwrap();
    assert_eq!(a, LocalBuf { addr: 5000, length: 30, lkey: 9 });
    assert_eq!(b, LocalBuf { addr: 5030, length: 20, lkey: 9 });
    assert_ne!(id_a, id_b);
    assert_eq!(sb.in_flight(), 2);
    assert_eq!(sb.used(), 50);
}

#[test]
fn send_pool_releases_in_order() {
    let mut sb = SendBuffer::new(vec![0u8; 100], 0, 9);
    let (_, id_a) = sb.try_alloc(30).unwrap();
    let (_, id_b) = sb.try_alloc(20).unwrap();
    assert!(sb.complete(id_b));
    assert_eq!(sb.reclaim(), 0);
    assert_eq!(sb.used(), 50);
    assert!(sb.complete(id_a));
    assert_eq!(sb.reclaim(), 2);
    assert_eq!(sb.used(), 0);
    assert_eq!(sb.in_flight(), 0);
    assert!(!sb.complete(id_a));
}

#[test]
fn send_pool_wrap_counts_skipped_tail() {
    let mut sb = SendBuffer::new(vec![0u8; 100], 0, 9);
    let (_, a) = sb.try_alloc(70).unwrap();
    let (_, b) = sb.try_alloc(20).unwrap();
    sb.complete(a);
    sb.reclaim();
    assert_eq!(sb.used(), 20);
    let (c, _) = sb.try_alloc(30).unwrap();
    assert_eq!(c.addr, 0);
    // 20 in flight, 10 skipped at the end, 30 at the start
    assert_eq!(sb.used(), 60);
    sb.complete(b);
    sb.reclaim();
    assert_eq!(sb.used(), 40);
}

#[test]
fn send_pool_fill_and_read_back() {
    let mut sb = SendBuffer::new(vec![0u8; 16], 100, 9);
    let (buf, _) = sb.try_alloc(4).unwrap();
    sb.fill(buf.addr, &[1, 2, 3, 4]);
    assert_eq!(sb.read_back(buf.addr, 4), vec![1, 2, 3, 4]);
    assert_eq!(sb.read_back(104, 2), vec![0, 0]);
}

#[test]
fn recv_cursor_follows_placement() {
    let mut rb = RecvBuffer::new(0, 100);
    assert_eq!(rb.read(60), 0);
    assert_eq!(rb.read(40), 60);
    assert_eq!(rb.read(1), 0);
    assert_eq!(rb.cursor(), 1);
}

#[test]
fn release_batches_until_threshold() {
    let mut rb = RecvBuffer::new(0, 1 << 20);
    for _ in 0..7 {
        assert_eq!(rb.notify_release(1024), None);
    }
    assert_eq!(rb.held_back(), 7 * 1024);
    assert_eq!(rb.notify_release(1024), Some(8192));
    assert_eq!(rb.held_back(), 0);
    assert_eq!(rb.announced(), 8192);
}

#[test]
fn release_of_nine_kib_sends_one_credit() {
    let mut rb = RecvBuffer::new(0, 1 << 20);
    assert_eq!(rb.notify_release(9216), Some(9216));
    assert_eq!(rb.notify_release(10), None);
}

#[test]
fn release_wrap_announces_held_back() {
    let mut rb = RecvBuffer::new(0, 100);
    assert_eq!(rb.notify_release(60), None);
    assert_eq!(rb.notify_release(30), None);
    assert_eq!(rb.notify_release(20), Some(90));
    assert_eq!(rb.announced(), 0);
    assert_eq!(rb.held_back(), 20);
}

#[test]
fn release_accounting_adds_up() {
    let mut rb = RecvBuffer::new(0, 64 * 1024);
    let mut released: u64 = 0;
    let mut sent: u64 = 0;
    for i in 0..500u32 {
        let len = 17 + (i * 37) % 700;
        released += len as u64;
        if let Some(v) = rb.notify_release(len) {
            sent += v as u64;
        }
        assert_eq!(sent + rb.held_back() as u64, released);
    }
    assert!(rb.held_back() < MIN_LENGTH_TO_NOTIFY_RELEASE);
}
