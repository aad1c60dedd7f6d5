use std::collections::{HashMap, HashSet};
use vicia_browser::browser::buffer::{validate_complete_page, BrowserBufferBackend};
use vicia_browser::browser::buffer_error::{page_not_resident_id, BufferError, PageNotResident};
use vicia_browser::storage::{FileHeader, StorageError, FORMAT_VERSION, PAGE_SIZE};

fn page(byte: u8) -> Vec<u8> {
    vec![byte; PAGE_SIZE]
}

fn header_page(version: u32, page_count: u64) -> Vec<u8> {
    let mut bytes = b"MGRF".to_vec();
    bytes.extend_from_slice(&version.to_le_bytes());
    bytes.extend_from_slice(&page_count.to_le_bytes());
    bytes.resize(PAGE_SIZE, 0);
    bytes
}

fn current_page_zero(page_count: u64) -> Vec<u8> {
    header_page(FORMAT_VERSION, page_count)
}

#[test]
fn write_marks_dirty() {
    let mut buf = BrowserBufferBackend::new();
    buf.write_page(0, &page(1)).unwrap();
    let dirty = buf.take_dirty();
    assert!(dirty.contains(&0));
}

#[test]
fn take_dirty_clears_set() {
    let mut buf = BrowserBufferBackend::new();
    buf.write_page(0, &page(1)).unwrap();
    let _ = buf.take_dirty();
    assert!(buf.take_dirty().is_empty());
}

#[test]
fn read_after_write_returns_same_bytes() {
    let mut buf = BrowserBufferBackend::new();
    let p = page(42);
    buf.write_page(3, &p).unwrap();
    assert_eq!(buf.read_page(3).unwrap(), p);
}

#[test]
fn page_count_reflects_distinct_ids() {
    let mut buf = BrowserBufferBackend::new();
    buf.write_page(0, &page(0)).unwrap();
    buf.write_page(1, &page(1)).unwrap();
    buf.write_page(0, &page(2)).unwrap();
    assert_eq!(buf.page_count().unwrap(), 2);
}

#[test]
fn load_pages_starts_with_no_dirty() {
    let pages = HashMap::from([(0u64, page(0)), (1u64, page(1))]);
    let mut buf = BrowserBufferBackend::load_pages(pages);
    assert!(buf.take_dirty().is_empty());
}

#[test]
fn load_pages_all_dirty_marks_all() {
    let pages = HashMap::from([(0u64, page(0)), (1u64, page(1))]);
    let mut buf = BrowserBufferBackend::load_pages_all_dirty(pages);
    let dirty = buf.take_dirty();
    assert!(dirty.contains(&0));
    assert!(dirty.contains(&1));
}

#[test]
fn all_pages_returns_every_page() {
    let pages = HashMap::from([(2u64, page(2)), (0u64, page(0)), (1u64, page(1))]);
    let buf = BrowserBufferBackend::load_pages(pages);
    let all = buf.all_pages();
    assert_eq!(all.len(), 3);
    let ids: Vec<u64> = all.iter().map(|(id, _)| *id).collect();
    assert_eq!(ids, vec![0, 1, 2], "pages must be sorted by id");
    assert_eq!(all[2].1, page(2));
}

#[test]
fn all_pages_sorts_many_ids() {
    let pages = (0..40u64).map(|i| ((i * 17) % 40, page(i as u8))).collect();
    let buf = BrowserBufferBackend::load_pages(pages);
    let ids: Vec<u64> = buf.all_pages().iter().map(|(id, _)| *id).collect();
    assert_eq!(ids, (0..40).collect::<Vec<u64>>());
}

#[test]
fn is_new_true_when_empty() {
    assert!(BrowserBufferBackend::new().is_new());
}

#[test]
fn is_new_false_after_write() {
    let mut buf = BrowserBufferBackend::new();
    buf.write_page(0, &page(0)).unwrap();
    assert!(!buf.is_new());
}

#[test]
fn retain_declared_prefix_drops_unpublished_tail() {
    let pages = HashMap::from([(0u64, current_page_zero(1)), (1u64, page(99))]);
    let mut buf = BrowserBufferBackend::load_pages_all_dirty(pages);

    assert_eq!(buf.retain_declared_prefix().unwrap(), 1);
    assert_eq!(buf.page_count().unwrap(), 1);
    assert_eq!(buf.all_pages().len(), 1);
    assert!(buf.take_dirty().contains(&0));
    assert_eq!(buf.retain_declared_prefix().unwrap(), 1);
    assert_eq!(buf.all_pages().len(), 1);
}

#[test]
fn empty_buffer_has_zero_declared_and_exportable_pages() {
    let mut buf = BrowserBufferBackend::new();
    assert_eq!(buf.retain_declared_prefix().unwrap(), 0);
    assert_eq!(buf.exportable_page_count().unwrap(), 0);
}

#[test]
fn short_published_page_is_neither_complete_nor_exportable() {
    let pages = HashMap::from([(0u64, current_page_zero(2)), (1u64, vec![0; PAGE_SIZE - 1])]);
    let buf = BrowserBufferBackend::load_pages(pages);

    assert!(!buf.has_complete_page_prefix(2).unwrap());
    assert!(
        buf.exportable_page_count().is_err(),
        "short published pages must not form a portable graph image"
    );
}

#[test]
fn wrong_page_size_errors() {
    let mut buf = BrowserBufferBackend::new();
    assert!(buf.write_page(0, &[0u8; 100]).is_err());
}

#[test]
fn read_missing_page_errors() {
    let buf = BrowserBufferBackend::new();
    assert!(buf.read_page(99).is_err());
}

#[test]
fn sparse_page_zero_keeps_logical_size_and_reports_demand_page() {
    let buf = BrowserBufferBackend::load_sparse_page_zero(current_page_zero(4)).unwrap();

    assert!(buf.is_sparse());
    assert_eq!(buf.page_count().unwrap(), 4);
    assert_eq!(buf.resident_page_count(), 1);
    assert_eq!(buf.pinned_page_count(), 1);
    assert!(buf.is_page_resident(0));

    let missing = buf.read_page(2).unwrap_err();
    assert_eq!(page_not_resident_id(&missing), Some(2));
    let outside = buf.read_page(4).unwrap_err();
    assert_eq!(page_not_resident_id(&outside), None);
}

#[test]
fn clean_staging_is_atomic_and_does_not_mark_pages_dirty() {
    let mut buf = BrowserBufferBackend::load_sparse_page_zero(current_page_zero(4)).unwrap();
    buf.stage_clean_pages(vec![(1, page(1)), (2, page(2))]).unwrap();

    assert_eq!(buf.resident_page_count(), 3);
    assert_eq!(buf.dirty_page_count(), 0);
    assert_eq!(buf.read_page(2).unwrap(), page(2));

    assert!(
        buf.stage_clean_pages(vec![(3, page(3)), (4, page(4))]).is_err(),
        "an out-of-range page must reject the whole staged batch"
    );
    assert!(!buf.is_page_resident(3));

    buf.write_page(1, &page(9)).unwrap();
    assert!(
        buf.stage_clean_page(1, page(1)).is_err(),
        "durable bytes must not overwrite an unflushed dirty page"
    );
    assert_eq!(buf.read_page(1).unwrap(), page(9));
}

#[test]
fn bounded_eviction_keeps_pinned_and_dirty_pages() {
    let mut buf = BrowserBufferBackend::load_sparse_page_zero(current_page_zero(5)).unwrap();
    buf.stage_clean_pages(vec![(1, page(1)), (2, page(2)), (3, page(3))]).unwrap();
    buf.replace_pinned_pages(HashSet::from([0, 2])).unwrap();
    buf.write_page(3, &page(9)).unwrap();

    assert_eq!(buf.evict_clean_unpinned_to(1), 1);
    assert!(!buf.is_page_resident(1));
    assert!(buf.is_page_resident(0));
    assert!(buf.is_page_resident(2));
    assert!(buf.is_page_resident(3));
    assert_eq!(buf.resident_page_count(), 3);
    assert_eq!(buf.page_count().unwrap(), 5);

    let dirty = buf.take_dirty();
    assert!(dirty.contains(&3));
    assert_eq!(buf.evict_clean_unpinned_to(2), 1);
    assert!(!buf.is_page_resident(3));
    assert_eq!(buf.resident_page_count(), 2);
}

#[test]
fn eviction_gives_up_the_lowest_ids_first() {
    let mut buf = BrowserBufferBackend::load_sparse_page_zero(current_page_zero(9)).unwrap();
    buf.stage_clean_pages((1..8).map(|id| (id, page(id as u8))).collect()).unwrap();
    assert_eq!(buf.evict_clean_unpinned_to(5), 3);
    let ids: Vec<u64> = buf.all_pages().iter().map(|(id, _)| *id).collect();
    assert_eq!(ids, vec![0, 4, 5, 6, 7]);
}

#[test]
fn retain_declared_prefix_resets_sparse_logical_count() {
    let mut buf = BrowserBufferBackend::load_sparse_page_zero(current_page_zero(4)).unwrap();
    buf.stage_clean_pages(vec![(1, page(1)), (3, page(3))]).unwrap();
    buf.replace_pinned_pages(HashSet::from([0, 3])).unwrap();

    buf.write_page(0, &current_page_zero(2)).unwrap();
    assert_eq!(buf.retain_declared_prefix().unwrap(), 2);
    assert_eq!(buf.page_count().unwrap(), 2);
    assert_eq!(buf.resident_page_count(), 2);
    assert_eq!(buf.pinned_page_count(), 1);
    assert!(!buf.is_page_resident(3));
}

#[test]
fn sparse_constructor_rejects_invalid_pins_counts_and_legacy() {
    let pages = HashMap::from([(0, current_page_zero(3))]);
    assert_eq!(
        BrowserBufferBackend::load_sparse_pages(pages.clone(), 3, HashSet::from([1])).err(),
        Some(BufferError::PinnedNotResident { page_id: 1 }),
        "a pinned page must already be resident"
    );
    assert_eq!(
        BrowserBufferBackend::load_sparse_pages(pages, 2, HashSet::from([0])).err(),
        Some(BufferError::PageCountMismatch { published: 3, declared: 2 }),
        "loader and page-zero counts must agree"
    );
    assert_eq!(
        BrowserBufferBackend::load_sparse_page_zero(header_page(FORMAT_VERSION - 1, 1)).err(),
        Some(BufferError::UnsupportedSparseVersion { version: 11 }),
        "legacy images must take the eager migration path"
    );
    assert!(BrowserBufferBackend::load_sparse_page_zero(header_page(FORMAT_VERSION + 1, 1)).is_ok());
}

#[test]
fn complete_candidate_can_switch_to_sparse_and_replace_authority_pins() {
    let pages = HashMap::from([(0, current_page_zero(3)), (1, page(1)), (2, page(2))]);
    let mut buf = BrowserBufferBackend::load_pages(pages);

    assert_eq!(buf.configure_sparse_residency(HashSet::from([0, 2])).unwrap(), 3);
    assert!(buf.is_sparse());
    assert_eq!(buf.pinned_page_count(), 2);
    assert_eq!(buf.evict_all_clean_unpinned(), 1);
    assert!(!buf.is_page_resident(1));

    buf.replace_pinned_pages(HashSet::from([0])).unwrap();
    assert_eq!(buf.pinned_page_count(), 1);
    assert_eq!(buf.evict_all_clean_unpinned(), 1);
    assert_eq!(buf.resident_page_count(), 1);
}

#[test]
fn eager_buffer_never_evicts_its_only_page_image() {
    let pages = HashMap::from([(0, current_page_zero(2)), (1, page(1))]);
    let mut buf = BrowserBufferBackend::load_pages(pages);

    assert_eq!(buf.evict_all_clean_unpinned(), 0);
    assert_eq!(buf.resident_page_count(), 2);
    assert_eq!(buf.read_page(1).unwrap(), page(1));
}

#[test]
fn dirty_candidate_cannot_switch_to_sparse_residency() {
    let pages = HashMap::from([(0, current_page_zero(1))]);
    let mut buf = BrowserBufferBackend::load_pages_all_dirty(pages);
    assert!(
        buf.configure_sparse_residency(HashSet::from([0])).is_err(),
        "candidate must be durable before sparse conversion"
    );
    assert!(!buf.is_sparse());
}

#[test]
fn unpublished_tail_must_be_trimmed_before_sparse_conversion() {
    let pages = HashMap::from([(0, current_page_zero(2)), (1, page(1)), (2, page(2))]);
    let mut buf = BrowserBufferBackend::load_pages(pages);

    assert!(
        buf.configure_sparse_residency(HashSet::from([0])).is_err(),
        "logical and page-zero counts must agree before sparse conversion"
    );
    assert!(!buf.is_sparse());
}

#[test]
fn sparse_write_extends_logical_page_count() {
    let mut buf = BrowserBufferBackend::new();
    buf.write_page(7, &page(7)).unwrap();
    assert_eq!(buf.page_count().unwrap(), 8);
    assert_eq!(buf.resident_page_count(), 1);
}

#[test]
fn every_write_refusal_has_its_reason() {
    let mut buf = BrowserBufferBackend::new();
    assert_eq!(buf.write_page(0, &[0u8; 100]), Err(BufferError::InvalidPageSize { len: 100 }));
    assert_eq!(buf.write_page(u64::MAX, &page(0)), Err(BufferError::PageIdOverflow));
    assert_eq!(
        BufferError::InvalidPageSize { len: 100 }.message(),
        "Invalid page size: 100 bytes (expected 4096)"
    );
    assert!(buf.is_new());
}

#[test]
fn staging_refusals_have_their_reasons() {
    let mut buf = BrowserBufferBackend::load_sparse_page_zero(current_page_zero(4)).unwrap();
    assert_eq!(
        buf.stage_clean_pages(vec![(1, page(1)), (1, page(2))]),
        Err(BufferError::DuplicateStagedPage { page_id: 1 })
    );
    assert_eq!(
        buf.stage_clean_page(2, vec![0; 7]),
        Err(BufferError::InvalidPageLength { page_id: 2, len: 7 })
    );
    assert_eq!(
        buf.stage_clean_page(9, page(1)),
        Err(BufferError::StagedOutsideLogical { page_id: 9, logical: 4 })
    );
    buf.write_page(1, &page(9)).unwrap();
    assert_eq!(
        buf.stage_clean_page(1, page(1)),
        Err(BufferError::OverDirtyPage { page_id: 1 })
    );
    assert_eq!(
        buf.replace_pinned_pages(HashSet::from([9])),
        Err(BufferError::PinOutsideLogical { page_id: 9, logical: 4 })
    );
    assert_eq!(
        buf.replace_pinned_pages(HashSet::from([3])),
        Err(BufferError::PinNotResident { page_id: 3 })
    );
}

#[test]
fn declared_counts_and_headers_are_checked() {
    let buf = BrowserBufferBackend::load_pages(HashMap::from([(1, page(0))]));
    assert_eq!(buf.declared_page_count(), Err(BufferError::PageZeroNotFound));
    let buf = BrowserBufferBackend::load_pages(HashMap::from([(0, page(0))]));
    assert_eq!(
        buf.declared_page_count(),
        Err(BufferError::Header(StorageError::InvalidMagic))
    );
    let buf = BrowserBufferBackend::load_pages(HashMap::from([(0, current_page_zero(0))]));
    assert_eq!(buf.declared_page_count(), Err(BufferError::ZeroPageCount));
    let buf = BrowserBufferBackend::load_pages(HashMap::from([(0, current_page_zero(3))]));
    assert_eq!(
        buf.exportable_page_count(),
        Err(BufferError::Truncated { expected: 3, found: 1 })
    );
    let header = FileHeader::from_bytes(&current_page_zero(77)).unwrap();
    assert_eq!((header.version, header.page_count), (12, 77));
    assert_eq!(
        FileHeader::from_bytes(&[0; 83]),
        Err(StorageError::HeaderTooShort { len: 83 })
    );
    let newer = FileHeader::from_bytes(&header_page(14, 1)).unwrap();
    assert_eq!(newer.validate(), Err(StorageError::UnsupportedVersion { version: 14 }));
}

#[test]
fn demand_page_error_carries_its_page() {
    assert_eq!(PageNotResident(5).page_id(), 5);
    let error = BufferError::NotResident(PageNotResident(5));
    assert_eq!(page_not_resident_id(&error), Some(5));
    assert_eq!(
        error.message(),
        "Page 5 is not resident"
    );
    assert!(validate_complete_page(1, &page(1)).is_ok());
    assert_eq!(
        validate_complete_page(1, &[1, 2]).unwrap_err().message(),
        "Page 1 has invalid length 2 (expected 4096)"
    );
}

#[test]
fn sync_and_close_leave_the_buffer_as_it_is() {
    let mut buf = BrowserBufferBackend::new();
    buf.write_page(0, &page(7)).unwrap();
    assert_eq!(buf.backend_name(), "browser-buffer");
    assert_eq!(buf.sync(), Ok(()));
    assert_eq!(buf.close(), Ok(()));
    assert_eq!(buf.read_page(0), Ok(page(7)));
    assert_eq!(buf.dirty_page_count(), 1);
    assert_eq!(buf.page_count(), Ok(1));
}
