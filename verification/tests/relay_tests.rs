use authproxy::relay::{relay_producer_continues, RelayEvent, RelayQueue};

#[test]
fn relay_preserves_chunk_order() {
    let mut q = RelayQueue::new(8);
    assert!(q.try_push(b"c1".to_vec()));
    assert!(q.try_push(b"c2".to_vec()));
    assert!(q.try_push(b"c3".to_vec()));
    assert_eq!(q.pop().unwrap().as_slice(), b"c1");
    assert_eq!(q.pop().unwrap().as_slice(), b"c2");
    assert_eq!(q.pop().unwrap().as_slice(), b"c3");
    assert!(q.pop().is_none());
}

#[test]
fn relay_refuses_chunks_beyond_its_bound() {
    let mut q = RelayQueue::new(2);
    assert!(q.try_push(b"a".to_vec()));
    assert!(q.try_push(b"b".to_vec()));
    // full: the producer must wait instead of buffering
    assert!(!q.try_push(b"c".to_vec()));
    assert_eq!(q.pop().unwrap().as_slice(), b"a");
    assert!(q.try_push(b"c".to_vec()));
    assert_eq!(q.pop().unwrap().as_slice(), b"b");
    assert_eq!(q.pop().unwrap().as_slice(), b"c");
}

#[test]
fn relay_delivers_thousands_of_chunks_with_bounded_memory() {
    let mut q = RelayQueue::new(8);
    let mut delivered: Vec<u8> = Vec::new();
    let mut sent: Vec<u8> = Vec::new();
    let mut next: u32 = 0;
    let total: u32 = 5000;
    while next < total || q.len() > 0 {
        // the producer fills up to the bound, then the consumer drains
        while next < total {
            let chunk = next.to_be_bytes().to_vec();
            if !q.try_push(chunk.clone()) {
                break;
            }
            sent.extend_from_slice(&chunk);
            next += 1;
        }
        assert!(q.len() <= 8);
        while let Some(chunk) = q.pop() {
            delivered.extend_from_slice(&chunk);
        }
    }
    assert_eq!(delivered, sent);
    assert_eq!(delivered.len(), (total as usize) * 4);
}

#[test]
fn producer_stops_when_caller_disconnects() {
    assert!(relay_producer_continues(&RelayEvent::Delivered));
    assert!(!relay_producer_continues(&RelayEvent::CallerGone));
    assert!(!relay_producer_continues(&RelayEvent::UpstreamErr));
    assert!(!relay_producer_continues(&RelayEvent::UpstreamEnd));
}
