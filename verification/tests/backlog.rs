use bytes::Bytes;
use shmon::protocol::Packet;
use shmon::server::backlog::{Backlog, DEFAULT_LIMIT};

#[test]
fn evicts_old_entries() {
    let mut backlog = Backlog::with_limit(10);
    backlog.push(Bytes::from_static(b"hello"));
    backlog.push(Bytes::from_static(b"world!"));
    let items: Vec<_> = backlog.iter().cloned().collect();
    assert_eq!(items, vec![Bytes::from_static(b"world!")]);
}

#[test]
fn handles_empty_push() {
    let mut backlog = Backlog::with_limit(10);
    backlog.push(Bytes::from_static(b""));
    assert_eq!(backlog.iter().count(), 0);
}

#[test]
fn exact_limit_not_evicted() {
    let mut backlog = Backlog::with_limit(5);
    backlog.push(Bytes::from_static(b"hello")); // exactly 5 bytes
    let items: Vec<_> = backlog.iter().cloned().collect();
    assert_eq!(items.len(), 1);
    assert_eq!(items[0], Bytes::from_static(b"hello"));
}

#[test]
fn single_large_entry_exceeds_limit() {
    let mut backlog = Backlog::with_limit(5);
    backlog.push(Bytes::from_static(b"this is longer than limit"));
    // A single entry larger than the limit gets evicted immediately
    // because current > limit triggers the eviction loop
    let items: Vec<_> = backlog.iter().cloned().collect();
    assert_eq!(items.len(), 0);
}

#[test]
fn iter_order_preserved() {
    let mut backlog = Backlog::with_limit(100);
    backlog.push(Bytes::from_static(b"first"));
    backlog.push(Bytes::from_static(b"second"));
    backlog.push(Bytes::from_static(b"third"));
    let items: Vec<_> = backlog.iter().cloned().collect();
    assert_eq!(items.len(), 3);
    assert_eq!(items[0], Bytes::from_static(b"first"));
    assert_eq!(items[1], Bytes::from_static(b"second"));
    assert_eq!(items[2], Bytes::from_static(b"third"));
}

#[test]
fn multiple_evictions() {
    let mut backlog = Backlog::with_limit(15);
    backlog.push(Bytes::from_static(b"aaaaa")); // 5 bytes
    backlog.push(Bytes::from_static(b"bbbbb")); // 10 bytes total
    backlog.push(Bytes::from_static(b"ccccc")); // 15 bytes total
    backlog.push(Bytes::from_static(b"ddddd")); // 20 bytes total, evicts "aaaaa"
    let items: Vec<_> = backlog.iter().cloned().collect();
    assert_eq!(items.len(), 3);
    assert_eq!(items[0], Bytes::from_static(b"bbbbb"));
    assert_eq!(items[1], Bytes::from_static(b"ccccc"));
    assert_eq!(items[2], Bytes::from_static(b"ddddd"));
}

#[test]
fn one_push_may_evict_several_entries() {
    let mut backlog = Backlog::with_limit(10);
    backlog.push(Bytes::from_static(b"aa"));
    backlog.push(Bytes::from_static(b"bbb"));
    backlog.push(Bytes::from_static(b"cccc"));
    backlog.push(Bytes::from_static(b"dddddd"));
    let items: Vec<_> = backlog.iter().cloned().collect();
    assert_eq!(
        items,
        vec![Bytes::from_static(b"cccc"), Bytes::from_static(b"dddddd")]
    );
}

#[test]
fn oversized_entry_empties_the_backlog() {
    let mut backlog = Backlog::with_limit(4);
    backlog.push(Bytes::from_static(b"ab"));
    backlog.push(Bytes::from_static(b"abcde"));
    assert_eq!(backlog.iter().count(), 0);
    backlog.push(Bytes::from_static(b"cd"));
    assert_eq!(backlog.iter().count(), 1);
}

#[test]
fn holds_the_newest_entries_of_many() {
    let mut backlog = Backlog::with_limit(7);
    for n in 0u8..50 {
        backlog.push(Bytes::from(vec![n; (n % 4) as usize]));
    }
    // The last lengths are 1, 2, 3, 0, 1 for n = 45 to 49.
    let items: Vec<_> = backlog.iter().cloned().collect();
    assert_eq!(
        items,
        vec![
            Bytes::from(vec![45]),
            Bytes::from(vec![46, 46]),
            Bytes::from(vec![47, 47, 47]),
            Bytes::from(vec![49]),
        ]
    );
}

#[test]
fn zero_limit_holds_nothing() {
    let mut backlog = Backlog::with_limit(0);
    backlog.push(Bytes::from_static(b"a"));
    assert_eq!(backlog.iter().count(), 0);
}

#[test]
fn default_limit_is_64_kib() {
    assert_eq!(DEFAULT_LIMIT, 65536);
    let mut backlog = Backlog::new();
    backlog.push(Bytes::from(vec![1u8; 65536]));
    assert_eq!(backlog.iter().count(), 1);
    backlog.push(Bytes::from(vec![2u8; 1]));
    let items: Vec<_> = backlog.iter().cloned().collect();
    assert_eq!(items, vec![Bytes::from(vec![2u8])]);
}

#[test]
fn history_is_data_in_order() {
    let mut backlog = Backlog::new();
    backlog.push(Bytes::from_static(b"one"));
    backlog.push(Bytes::from_static(b"two"));
    let mut shown = Vec::new();
    for packet in backlog.history() {
        match packet {
            Packet::Data(data) => shown.push(data),
            _ => panic!("expected Data"),
        }
    }
    assert_eq!(
        shown,
        vec![Bytes::from_static(b"one"), Bytes::from_static(b"two")]
    );
}
