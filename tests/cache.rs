use n5::compression::CompressionType;
use n5_wasm::{BlockData, CacheLookup, DatasetAttributes, DecodedBlock, ElementType, N5AsyncCacheReader, N5Error};

fn attrs() -> DatasetAttributes {
    DatasetAttributes::new(vec![10, 10], vec![5, 5], ElementType::Uint8, CompressionType::default())
}

fn block(x: u64, fill: u8) -> DecodedBlock {
    DecodedBlock { size: vec![5, 5], grid_position: vec![x, 0], data: BlockData::Uint8(vec![fill; 25]) }
}

fn cache(cap: usize) -> N5AsyncCacheReader<()> {
    N5AsyncCacheReader::wrap((), "ds".to_string(), ElementType::Uint8, cap)
}

fn hit(c: &mut N5AsyncCacheReader<()>, x: u64) -> Option<Option<DecodedBlock>> {
    match c.begin_read_block("ds", &attrs(), &vec![x, 0]) {
        CacheLookup::Hit(b) => Some(b),
        CacheLookup::Miss => None,
        CacheLookup::Bypass => panic!("bypass for the cached dataset"),
    }
}

fn store(c: &mut N5AsyncCacheReader<()>, x: u64, fill: u8) {
    let r = c.finish_read_block("ds", vec![x, 0], Ok(Some(block(x, fill))));
    assert_eq!(r, Ok(Some(block(x, fill))));
}

#[test]
fn cache_starts_empty() {
    let mut c = cache(3);
    assert_eq!(c.len(), 0);
    assert_eq!(c.capacity(), 3);
    assert_eq!(c.dataset(), "ds");
    assert_eq!(c.data_type(), ElementType::Uint8);
    assert_eq!(hit(&mut c, 0), None);
}

#[test]
fn cache_hit_returns_stored_block() {
    let mut c = cache(3);
    store(&mut c, 0, 7);
    for _ in 0..3 {
        assert_eq!(hit(&mut c, 0), Some(Some(block(0, 7))));
    }
    assert_eq!(c.len(), 1);
}

#[test]
fn cache_sparse_block_is_cached() {
    let mut c = cache(2);
    assert_eq!(hit(&mut c, 4), None);
    assert_eq!(c.finish_read_block("ds", vec![4, 0], Ok(None)), Ok(None));
    assert_eq!(hit(&mut c, 4), Some(None));
    assert_eq!(hit(&mut c, 4), Some(None));
}

#[test]
fn cache_evicts_least_recently_used() {
    let mut c = cache(2);
    store(&mut c, 0, 0);
    store(&mut c, 1, 1);
    store(&mut c, 2, 2);
    assert_eq!(c.len(), 2);
    assert_eq!(hit(&mut c, 0), None);
    assert_eq!(hit(&mut c, 1), Some(Some(block(1, 1))));
    assert_eq!(hit(&mut c, 2), Some(Some(block(2, 2))));
}

#[test]
fn cache_read_refreshes_recency() {
    let mut c = cache(2);
    store(&mut c, 0, 0);
    store(&mut c, 1, 1);
    assert!(hit(&mut c, 0).is_some());
    store(&mut c, 2, 2);
    assert_eq!(hit(&mut c, 1), None);
    assert_eq!(hit(&mut c, 0), Some(Some(block(0, 0))));
    assert_eq!(hit(&mut c, 2), Some(Some(block(2, 2))));
}

#[test]
fn cache_second_store_wins() {
    let mut c = cache(2);
    store(&mut c, 0, 1);
    store(&mut c, 0, 9);
    assert_eq!(c.len(), 1);
    assert_eq!(hit(&mut c, 0), Some(Some(block(0, 9))));
}

#[test]
fn cache_errors_are_not_stored() {
    let mut c = cache(2);
    let r = c.finish_read_block("ds", vec![0, 0], Err(N5Error::Transport("down".to_string())));
    assert_eq!(r, Err(N5Error::Transport("down".to_string())));
    assert_eq!(c.len(), 0);
    assert_eq!(hit(&mut c, 0), None);
}

#[test]
fn cache_other_dataset_bypasses() {
    let mut c = cache(2);
    assert!(matches!(c.begin_read_block("other", &attrs(), &vec![0, 0]), CacheLookup::Bypass));
    let r = c.finish_read_block("other", vec![0, 0], Ok(Some(block(0, 3))));
    assert_eq!(r, Ok(Some(block(0, 3))));
    assert_eq!(c.len(), 0);
}

#[test]
fn cache_of_capacity_zero_stores_nothing() {
    let mut c = cache(0);
    store(&mut c, 0, 1);
    assert_eq!(c.len(), 0);
    assert_eq!(hit(&mut c, 0), None);
}

#[test]
fn cache_many_distinct_keeps_last() {
    let mut c = cache(3);
    for x in 0..10u64 {
        store(&mut c, x, x as u8);
    }
    assert_eq!(c.len(), 3);
    for x in 0..7u64 {
        assert_eq!(hit(&mut c, x), None);
    }
    for x in 7..10u64 {
        assert_eq!(hit(&mut c, x), Some(Some(block(x, x as u8))));
    }
}

#[test]
fn cache_keeps_inner_reader() {
    let c = N5AsyncCacheReader::wrap(42u32, "ds".to_string(), ElementType::Uint8, 1);
    assert_eq!(*c.reader(), 42);
}

#[test]
fn cache_reads_of_distinct_positions_keep_last_capacity() {
    let mut c = cache(1);
    store(&mut c, 0, 1);
    store(&mut c, 1, 2);
    assert_eq!(c.len(), 1);
    assert_eq!(hit(&mut c, 0), None);
    assert_eq!(hit(&mut c, 1), Some(Some(block(1, 2))));
}
