use biadne::store::{ContentStore, StoreError, TrunkPosition};
use biadne::trunk::{BlockHash, BlockHeader, ChainDBTrunk, TrunkError};

fn hash(n: u64) -> BlockHash {
    let mut bytes = [0u8; 32];
    bytes[..8].copy_from_slice(&n.to_le_bytes());
    BlockHash { bytes }
}

fn header(n: u64) -> BlockHeader {
    BlockHeader { hash: hash(n), prev_hash: hash(n.wrapping_sub(1)) }
}

/// A store whose trunk holds heights 0 to `tip`, hashes 1000 upward.
fn store_up_to(tip: u64) -> ContentStore {
    let mut store = ContentStore::new();
    for h in 0..=tip {
        assert_eq!(store.add_header(&header(1000 + h)), Ok(h as u32));
    }
    store
}

#[test]
fn unwind_removes_only_entries_of_the_rolled_back_header() {
    let mut store = store_up_to(100);
    let e1 = store.insert(1).unwrap();
    assert_eq!(e1, TrunkPosition { hash: hash(1100), height: 100 });
    assert_eq!(store.add_header(&header(1101)), Ok(101));
    store.insert(2).unwrap();
    assert_eq!(store.unwind_tip(&header(1101)), Ok(()));
    assert!(store.contains(1));
    assert!(!store.contains(2));
    assert_eq!(store.trunk().len(), 100);
    assert_eq!(store.unwind_tip(&header(1100)), Ok(()));
    assert!(!store.contains(1));
    assert_eq!(store.trunk().len(), 99);
}

#[test]
fn unwind_twice_is_unwind_once() {
    let mut store = store_up_to(5);
    store.insert(7).unwrap();
    assert_eq!(store.unwind_tip(&header(1005)), Ok(()));
    let entries = store.entries().clone();
    let len = store.trunk().len();
    assert_eq!(store.unwind_tip(&header(1005)), Ok(()));
    assert_eq!(store.entries(), &entries);
    assert_eq!(store.trunk().len(), len);
    assert!(!store.contains(7));
}

#[test]
fn reorg_keeps_entries_at_or_below_new_tip() {
    let mut store = ContentStore::new();
    for h in 0..10u64 {
        store.add_header(&header(1000 + h)).unwrap();
        store.insert(h).unwrap();
    }
    for h in (6..10u64).rev() {
        assert_eq!(store.unwind_tip(&header(1000 + h)), Ok(()));
    }
    for h in 0..10u64 {
        assert_eq!(store.contains(h), h <= 5);
    }
    assert_eq!(store.trunk().get_tip(), Some(header(1005)));
}

#[test]
fn unwind_below_tip_is_refused() {
    let mut store = store_up_to(3);
    store.insert(1).unwrap();
    assert_eq!(store.unwind_tip(&header(1001)), Err(StoreError::NotTip));
    assert_eq!(store.trunk().len(), 3);
    assert!(store.contains(1));
}

#[test]
fn add_header_errors() {
    let mut store = store_up_to(2);
    assert_eq!(store.add_header(&header(1001)), Err(StoreError::Rejected(TrunkError::Duplicate)));
    assert_eq!(
        store.add_header(&BlockHeader { hash: hash(5000), prev_hash: hash(1001) }),
        Err(StoreError::Rejected(TrunkError::NotConnected))
    );
    assert_eq!(store.trunk().len(), 2);
}

#[test]
fn insert_without_tip_is_refused() {
    let mut store = ContentStore::new();
    assert_eq!(store.insert(3), Err(StoreError::EmptyTrunk));
    assert!(store.entries().is_empty());
}

#[test]
fn trunk_queries_agree() {
    let mut trunk = ChainDBTrunk::new();
    assert_eq!(trunk.len(), 0);
    assert_eq!(trunk.get_tip(), None);
    assert!(!trunk.is_on_trunk(hash(1000)));
    for h in 0..4u64 {
        assert_eq!(trunk.extend(header(1000 + h)), Ok(h as u32));
    }
    assert_eq!(trunk.len(), 3);
    assert!(trunk.is_on_trunk(hash(1002)));
    assert_eq!(trunk.get_height(hash(1002)), Some(2));
    assert_eq!(trunk.get_header(hash(1002)), Some(header(1002)));
    assert_eq!(trunk.get_height(hash(999)), None);
    assert_eq!(trunk.get_header(hash(999)), None);
    assert_eq!(trunk.get_tip(), Some(header(1003)));
    assert_eq!(trunk.retract(), Some(header(1003)));
    assert!(!trunk.is_on_trunk(hash(1003)));
    assert_eq!(trunk.get_height(hash(1003)), None);
    assert_eq!(trunk.len(), 2);
}

#[test]
fn empty_trunk_retract_and_unwind() {
    let mut trunk = ChainDBTrunk::new();
    assert_eq!(trunk.retract(), None);
    let mut store = ContentStore::new();
    assert_eq!(store.unwind_tip(&header(1)), Ok(()));
    assert_eq!(store.trunk().len(), 0);
}

#[test]
fn remove_by_content_id() {
    let mut store = store_up_to(1);
    store.insert(4).unwrap();
    store.insert(5).unwrap();
    store.insert(4).unwrap();
    assert_eq!(store.remove(4), 2);
    assert!(!store.contains(4));
    assert!(store.contains(5));
    assert_eq!(store.entries().len(), 1);
    assert_eq!(store.remove(9), 0);
    assert_eq!(store.entries().len(), 1);
}

#[test]
fn trunk_from_headers_checks_the_chain() {
    let chain: Vec<BlockHeader> = (0..5u64).map(|h| header(1000 + h)).collect();
    let trunk = ChainDBTrunk::from_headers(&chain).unwrap();
    assert_eq!(trunk.len(), 4);
    assert_eq!(trunk.next_height(), 5);
    assert_eq!(trunk.get_height(hash(1003)), Some(3));
    let broken = vec![header(1000), header(1002)];
    assert_eq!(ChainDBTrunk::from_headers(&broken).err(), Some(TrunkError::NotConnected));
    let twice = vec![header(1000), BlockHeader { hash: hash(1000), prev_hash: hash(1000) }];
    assert_eq!(ChainDBTrunk::from_headers(&twice).err(), Some(TrunkError::Duplicate));
    assert!(ChainDBTrunk::from_headers(&vec![]).unwrap().get_tip().is_none());
}

#[test]
fn store_over_existing_trunk() {
    let chain: Vec<BlockHeader> = (0..3u64).map(|h| header(1000 + h)).collect();
    let mut store = ContentStore::with_trunk(ChainDBTrunk::from_headers(&chain).unwrap());
    assert!(store.entries().is_empty());
    assert_eq!(store.insert(1), Ok(TrunkPosition { hash: hash(1002), height: 2 }));
}
