//! The mailbox store: content-addressed lookup, idempotent publishing,
//! time-to-live sweeping, and the collision behaviour of the id hash.
use dkls23::relay::{collect_step, CollectStep, MessageId, MessageStore, RelayError};
use std::collections::HashSet;

#[test]
fn test_message_id_hash() {
    let id1 = MessageId::new("session1", 1, Some(0), Some(1), "keygen");
    let id2 = MessageId::new("session1", 1, Some(0), Some(1), "keygen");
    let id3 = MessageId::new("session1", 2, Some(0), Some(1), "keygen");

    assert_eq!(id1.hash(), id2.hash());
    assert_ne!(id1.hash(), id3.hash());
}

#[test]
fn test_message_store() {
    let mut store = MessageStore::new(3600);
    let id = MessageId::new("session1", 1, Some(0), None, "broadcast");

    store.put(id.clone(), vec![1, 2, 3]).unwrap();

    assert!(store.contains(&id));

    let msg = store.get(&id).unwrap();
    assert_eq!(msg.payload, vec![1, 2, 3]);
}

#[test]
fn put_twice_same_hash_and_payload_back() {
    let mut store = MessageStore::new(60);
    let id = MessageId::new("s", 4, Some(2), None, "broadcast");
    let h1 = store.put_at(id.clone(), vec![9, 9, 9], 1000).unwrap();
    let h2 = store.put_at(id.clone(), vec![9, 9, 9], 1005).unwrap();
    assert_eq!(h1, h2);
    assert_eq!(h1, id.hash());
    let msg = store.get(&id).unwrap();
    assert_eq!(msg.payload, vec![9, 9, 9]);
    // Re-putting keeps the earliest expiry: the entry still dies at
    // 1000 + 60 even though the second put happened later.
    store.cleanup_at(1061);
    assert!(!store.contains(&id));
}

#[test]
fn mailbox_ttl_sweeps_expired() {
    let mut store = MessageStore::new(1);
    let id = MessageId::new("s", 1, Some(0), None, "broadcast");
    store.put_at(id.clone(), vec![5], 2000).unwrap();
    // Two seconds later the entry has outlived its one-second lease.
    store.cleanup_at(2002);
    let r = store.get(&id);
    assert!(matches!(r, Err(RelayError::NotFound(_))));
}

#[test]
fn round_scan_returns_matching_messages() {
    let mut store = MessageStore::new(3600);
    for p in 0..4usize {
        let id = MessageId::new("sess", 1, Some(p), None, "broadcast");
        store.put_at(id, vec![p as u8], 50).unwrap();
    }
    let other = MessageId::new("sess", 2, Some(0), None, "broadcast");
    store.put_at(other, vec![200], 50).unwrap();
    let msgs = store.get_round_messages("sess", 1);
    assert_eq!(msgs.len(), 4);
    let mut senders: Vec<usize> = msgs.iter().map(|m| m.id.from.unwrap()).collect();
    senders.sort();
    assert_eq!(senders, vec![0, 1, 2, 3]);
    for m in &msgs {
        assert_eq!(m.id.session_id, "sess");
        assert_eq!(m.id.round, 1);
    }
}

#[test]
fn distinct_tuples_distinct_hashes() {
    let mut seen: HashSet<String> = HashSet::new();
    let mut count = 0usize;
    for round in 0..1000u32 {
        for from in 0..1000usize {
            let id = MessageId::new("collision-surrogate", round, Some(from), None, "t");
            seen.insert(id.hash());
            count += 1;
        }
    }
    assert_eq!(count, 1_000_000);
    assert_eq!(seen.len(), 1_000_000);
}

#[test]
fn missing_party_times_out() {
    // Three parties expect three round-one broadcasts; party 1 never
    // posts. The other two see only two messages, wait until the deadline
    // passes, and abandon the run with a timeout.
    let mut store = MessageStore::new(3600);
    for p in [0usize, 2usize] {
        let id = MessageId::new("dsg", 1, Some(p), None, "broadcast");
        store.put_at(id, vec![p as u8], 0).unwrap();
    }
    let deadline_ms = 5_000u64;
    let mut now_ms = 0u64;
    let mut outcome = CollectStep::Wait;
    while outcome == CollectStep::Wait {
        let have = store.get_round_messages("dsg", 1).len();
        outcome = collect_step(have, 3, now_ms, deadline_ms);
        now_ms += 100;
    }
    assert_eq!(outcome, CollectStep::TimedOut);
    // A full set is delivered instead.
    let id = MessageId::new("dsg", 1, Some(1), None, "broadcast");
    store.put_at(id, vec![1], 0).unwrap();
    let have = store.get_round_messages("dsg", 1).len();
    assert_eq!(collect_step(have, 3, 0, deadline_ms), CollectStep::Ready);
}
