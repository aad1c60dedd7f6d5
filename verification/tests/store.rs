use std::collections::{HashMap, HashSet};
use vicia_browser::browser::buffer::BrowserBufferBackend;
use vicia_browser::browser::buffer_error::BufferError;
use vicia_browser::browser::db::BrowserDb;
use vicia_browser::browser::guard::BrowserOpenMode;
use vicia_browser::browser::image::{
    admit_import, append_batch, append_page, authority_refusal, export_capacity, export_verified,
    import_needs_authority, page_zero_version, paged_export_capacity, seal_import, split_import,
    BrowserImportPolicy, ExportError, ImportError, PagedExport, VerifiedExportError,
};
use vicia_browser::browser::indexeddb::{
    assemble_all_pages, assemble_page_range, decode_optional_page_zero, decode_page_value,
    decode_single_page, ensure_expected_authority, plan_page_range, require_page,
    require_page_range, required_next_page_zero, same_bytes, validate_page_id, validate_page_key,
    IdbError, RangeRequest, StoredValue, MAX_SAFE_PAGE_ID,
};
use vicia_browser::browser::mutation::{Collected, PublicationOutcome};
use vicia_browser::browser::open::{
    admit_fresh_store, after_sparse_open, fresh_buffer, pin_selected_authority, plan_open,
    MigratedImage, MigrationAction, OpenPlan, SparseBootstrap, SparseOutcome,
};
use vicia_browser::browser::paging::{
    authority_page, authority_pin_ids, complete_published_pages, configure_sparse_authority, extend_range,
    first_rejection, page_window, scan_needs_prefetch, select_verified_pages,
    sparse_authority_pin_ids, BrowserPageRange, ManifestCandidate, PageBatch, PageWindow,
    RangeWalk,
};
use vicia_browser::browser::publication::{
    guarded_requests, keep_first_error, prepare_replace, prepare_write, settle_transaction,
    ImageAuthority, IndexedDbReadCounters, StoreRequest,
};
use vicia_browser::browser::replacement::SealedImport;
use vicia_browser::browser::write::DeltaMaintenanceDecision;
use vicia_browser::storage::{StorageError, FORMAT_VERSION, PAGE_SIZE};

fn page(byte: u8) -> Vec<u8> {
    vec![byte; PAGE_SIZE]
}

fn header_page(version: u32, page_count: u64) -> Vec<u8> {
    let mut bytes = b"MGRF".to_vec();
    bytes.extend_from_slice(&version.to_le_bytes());
    bytes.extend_from_slice(&page_count.to_le_bytes());
    bytes.resize(PAGE_SIZE, 0);
    bytes
}

fn bytes_of(page: &[u8]) -> StoredValue {
    StoredValue::Bytes(page.to_vec())
}

/// A store as the requests of publications leave it.
fn apply(store: &mut HashMap<u64, Vec<u8>>, requests: Vec<StoreRequest>) {
    for request in requests {
        match request {
            StoreRequest::Clear => store.clear(),
            StoreRequest::Put { page_id, page } => {
                store.insert(page_id, page);
            }
        }
    }
}

fn observed(store: &HashMap<u64, Vec<u8>>) -> StoredValue {
    match store.get(&0) {
        Some(page) => StoredValue::Bytes(page.clone()),
        None => StoredValue::Absent,
    }
}

#[test]
fn page_keys_and_values_are_decoded() {
    assert_eq!(MAX_SAFE_PAGE_ID, 9_007_199_254_740_991);
    assert_eq!(validate_page_id(MAX_SAFE_PAGE_ID), Ok(()));
    assert_eq!(
        validate_page_id(MAX_SAFE_PAGE_ID + 1).unwrap_err().message(),
        "IndexedDB page id 9007199254740992 exceeds JavaScript's maximum safe integer"
    );
    assert_eq!(validate_page_key(Some(3), 0, 3), Ok(()));
    assert_eq!(
        validate_page_key(Some(4), 0, 3).unwrap_err().message(),
        "IndexedDB page range is not contiguous: expected page 3, found page 4"
    );
    assert_eq!(
        validate_page_key(None, 2, 3),
        Err(IdbError::InvalidKey { position: 2 })
    );
    assert_eq!(decode_page_value(1, bytes_of(&page(7))), Ok(page(7)));
    assert_eq!(
        decode_page_value(1, StoredValue::Other).unwrap_err().message(),
        "IndexedDB page 1 is not stored as a Uint8Array"
    );
    assert_eq!(
        decode_page_value(1, bytes_of(&[1])).unwrap_err().message(),
        "IndexedDB page 1 has invalid length 1 (expected 4096)"
    );
    assert_eq!(decode_optional_page_zero(StoredValue::Absent), Ok(None));
    assert_eq!(
        decode_optional_page_zero(bytes_of(&page(1))),
        Ok(Some(page(1)))
    );
    assert_eq!(
        decode_optional_page_zero(StoredValue::Other),
        Err(IdbError::NotBytes { page_id: 0 })
    );
    assert_eq!(decode_single_page(4, StoredValue::Absent), Ok(None));
    assert_eq!(
        require_page(4, None).unwrap_err().message(),
        "IndexedDB page 4 is missing"
    );
}

#[test]
fn stale_authority_is_told_from_the_pinned_one() {
    assert!(same_bytes(&page(1), &page(1)) && !same_bytes(&page(1), &page(2)));
    assert_eq!(ensure_expected_authority(&None, &None), Ok(()));
    assert_eq!(
        ensure_expected_authority(&Some(page(1)), &Some(page(2))),
        Err(IdbError::StaleImage)
    );
    assert_eq!(
        ensure_expected_authority(&Some(page(1)), &None).unwrap_err().message(),
        "IndexedDB page-0 publication authority changed after this handle opened; reopen the \
         database handle"
    );
}

#[test]
fn ranges_are_planned_and_assembled() {
    assert_eq!(plan_page_range(7, 0), Ok(RangeRequest::AuthorityOnly));
    assert_eq!(
        plan_page_range(7, 3),
        Ok(RangeRequest::Fetch { first_page: 7, last_page: 9, count: 3 })
    );
    assert_eq!(plan_page_range(0, 1 << 32), Err(IdbError::BatchTooLarge));
    assert_eq!(plan_page_range(u64::MAX, 2), Err(IdbError::RangeOverflow));
    assert_eq!(
        plan_page_range(MAX_SAFE_PAGE_ID, 2),
        Err(IdbError::UnsafePageId { page_id: MAX_SAFE_PAGE_ID + 1 })
    );
    let values = || vec![bytes_of(&page(1)), bytes_of(&page(2))];
    assert_eq!(
        assemble_page_range(5, 2, vec![Some(5), Some(6)], values()),
        Some(vec![(5, page(1)), (6, page(2))])
    );
    assert_eq!(assemble_page_range(5, 2, vec![Some(5), Some(7)], values()), None);
    assert_eq!(assemble_page_range(5, 3, vec![Some(5), Some(6)], values()), None);
    assert_eq!(assemble_page_range(5, 2, vec![Some(5)], values()), None);
    assert_eq!(
        assemble_page_range(5, 1, vec![Some(5)], vec![bytes_of(&[1])]),
        None
    );
    assert_eq!(
        require_page_range(5, 2, None).unwrap_err().message(),
        "IndexedDB page range starting at 5 with 2 pages is missing or corrupt"
    );
}

#[test]
fn whole_store_reads_are_assembled() {
    let pages = assemble_all_pages(
        vec![Some(0), Some(9)],
        vec![bytes_of(&page(1)), bytes_of(&page(2))],
    )
    .unwrap();
    assert_eq!(pages, HashMap::from([(0, page(1)), (9, page(2))]));
    assert_eq!(
        assemble_all_pages(vec![Some(0)], vec![]),
        Err(IdbError::KeysAndValuesDiffer)
    );
    assert_eq!(
        assemble_all_pages(vec![Some(0), None], vec![bytes_of(&page(1)), StoredValue::Other]),
        Err(IdbError::InvalidKey { position: 1 })
    );
    assert_eq!(
        assemble_all_pages(vec![Some(4)], vec![StoredValue::Other]),
        Err(IdbError::NotBytes { page_id: 4 })
    );
}

#[test]
fn publications_carry_page_zero_exactly_once() {
    assert_eq!(required_next_page_zero(&vec![(1, page(1)), (0, page(2))]), Ok(page(2)));
    assert_eq!(
        required_next_page_zero(&vec![(1, page(1))]),
        Err(IdbError::MissingNextPageZero)
    );
    assert_eq!(
        required_next_page_zero(&vec![(0, page(1)), (0, page(1))]),
        Err(IdbError::DuplicatePageZero)
    );
    assert_eq!(
        required_next_page_zero(&vec![(0, vec![0; 9])]).unwrap_err().message(),
        "IndexedDB publication page 0 has invalid length 9 (expected 4096)"
    );
    assert!(prepare_write(vec![]).unwrap().is_none());
    assert_eq!(
        prepare_write(vec![(MAX_SAFE_PAGE_ID + 1, page(1))]).err(),
        Some(IdbError::UnsafePageId { page_id: MAX_SAFE_PAGE_ID + 1 })
    );
    assert_eq!(prepare_replace(vec![]).err(), Some(IdbError::MissingNextPageZero));
}

#[test]
fn replacement_drops_stale_pages_and_moves_the_authority() {
    let mut store = HashMap::from([(0, page(1)), (5, page(5))]);
    let mut authority = ImageAuthority::new(Some(page(1)));
    let publication = prepare_replace(vec![(0, page(2)), (1, page(3))]).unwrap();
    assert!(publication.replaces_store());
    let requests = guarded_requests(&authority, observed(&store), &publication).unwrap();
    apply(&mut store, requests);
    authority.commit(&publication);
    assert_eq!(store, HashMap::from([(0, page(2)), (1, page(3))]));
    assert_eq!(authority.pinned(), Some(page(2)));
    assert_eq!(authority.ensure_pinned_authority(&Some(page(2))), Ok(()));
}

#[test]
fn incremental_write_spares_other_pages() {
    let mut store = HashMap::from([(0, page(1)), (5, page(5))]);
    let authority = ImageAuthority::new(Some(page(1)));
    let publication = prepare_write(vec![(0, page(2)), (1, page(3))]).unwrap().unwrap();
    assert_eq!(publication.pages().len(), 2);
    let requests = guarded_requests(&authority, observed(&store), &publication).unwrap();
    apply(&mut store, requests);
    assert_eq!(
        store,
        HashMap::from([(0, page(2)), (1, page(3)), (5, page(5))])
    );
}

#[test]
fn stale_handle_cannot_publish() {
    let store = HashMap::from([(0, page(9))]);
    let authority = ImageAuthority::new(Some(page(1)));
    let publication = prepare_write(vec![(0, page(2))]).unwrap().unwrap();
    assert_eq!(
        guarded_requests(&authority, observed(&store), &publication).err(),
        Some(IdbError::StaleImage)
    );
    let publication = prepare_replace(vec![(0, page(2))]).unwrap();
    assert_eq!(
        guarded_requests(&authority, StoredValue::Absent, &publication).err(),
        Some(IdbError::StaleImage)
    );
}

#[test]
fn transactions_report_their_first_specific_error() {
    assert_eq!(keep_first_error(None, "b"), Some("b"));
    assert_eq!(keep_first_error(Some("a"), "b"), Some("a"));
    assert_eq!(settle_transaction::<&str>(Ok(()), Some("a")), Ok(()));
    assert_eq!(settle_transaction(Err("tx"), Some("a")), Err("a"));
    assert_eq!(settle_transaction(Err("tx"), None), Err("tx"));
    let mut counters = IndexedDbReadCounters::new();
    counters.record_read(3, false);
    counters.record_read(0, true);
    counters.record_returned_pages(2);
    assert_eq!(
        counters,
        IndexedDbReadCounters {
            transactions: 2,
            pages_requested: 3,
            pages_returned: 2,
            full_store_reads: 1,
        }
    );
}

#[test]
fn ranges_are_walked_in_batches() {
    let mut walk = RangeWalk::new(BrowserPageRange { start: 3, end: 600 });
    let mut seen = Vec::new();
    while let Some(batch) = walk.next_batch() {
        seen.push(batch);
    }
    assert_eq!(
        seen,
        vec![
            PageBatch { start: 3, count: 256 },
            PageBatch { start: 259, count: 256 },
            PageBatch { start: 515, count: 85 },
        ]
    );
    let empty = BrowserPageRange { start: 9, end: 3 };
    assert_eq!((empty.start_page(), empty.end_page()), (9, 3));
    assert_eq!(RangeWalk::new(empty).next_batch(), None);
    assert!(scan_needs_prefetch(true, 1) && !scan_needs_prefetch(true, 0));
    assert!(!scan_needs_prefetch(false, 1));
    let mut loaded = vec![(1, page(1))];
    assert!(extend_range(&mut loaded, Some(vec![(2, page(2))])));
    assert!(!extend_range(&mut loaded, None));
    assert_eq!(loaded, vec![(1, page(1)), (2, page(2))]);
}

#[test]
fn windows_surround_the_required_page() {
    assert_eq!(page_window(10, 1, 100), PageWindow::Single);
    assert_eq!(page_window(10, 0, 100), PageWindow::Single);
    assert_eq!(page_window(10, 8, 100), PageWindow::Window { start: 8, count: 8 });
    assert_eq!(page_window(98, 8, 100), PageWindow::Window { start: 96, count: 4 });
    assert_eq!(page_window(10, 8, 5), PageWindow::Window { start: 8, count: 0 });
}

#[test]
fn only_verified_pages_are_staged() {
    let pages = || vec![(1, page(1)), (2, page(2))];
    let bad = || Err("bad".to_owned());
    assert_eq!(
        select_verified_pages(pages(), vec![bad(), Ok(())], 2).unwrap(),
        vec![(2, page(2))]
    );
    assert_eq!(
        select_verified_pages(pages(), vec![Ok(()), bad()], 2).unwrap_err().message(),
        "bad"
    );
    assert_eq!(
        select_verified_pages(pages(), vec![Ok(()), Ok(())], 3).unwrap_err().message(),
        "required IndexedDB page 3 did not pass verification"
    );
    assert_eq!(first_rejection(&vec![Ok(()), bad(), Ok(())]), Some("bad".to_owned()));
    assert_eq!(first_rejection(&vec![Ok(())]), None);
    assert_eq!(
        complete_published_pages(vec![(0, page(0)), (3, page(3)), (1, vec![1])], 3),
        vec![(0, page(0))]
    );
}

fn range(start: u64, end: u64) -> BrowserPageRange {
    BrowserPageRange { start, end }
}

fn candidates() -> Vec<ManifestCandidate> {
    vec![ManifestCandidate {
        slot: 0,
        generation: 4,
        manifest_range: range(5, 6),
        segment_ranges: vec![range(7, 9)],
    }]
}

#[test]
fn authority_pins_are_the_resident_metadata() {
    let pages = (0..8).map(|id| (id, page(id as u8))).collect();
    let buffer = BrowserBufferBackend::load_pages(pages);
    let pins = authority_pin_ids(&vec![range(1, 3)], &candidates(), &buffer);
    assert_eq!(pins, HashSet::from([0, 1, 2, 5, 7]));
    assert_eq!(
        sparse_authority_pin_ids(&vec![range(1, 2)], &candidates(), Some((0, 4)), &buffer).unwrap(),
        HashSet::from([0, 1, 5, 7])
    );
    assert_eq!(
        sparse_authority_pin_ids(&vec![], &candidates(), Some((0, 5)), &buffer)
            .unwrap_err()
            .message(),
        "Bounded browser planner does not retain the manifest lineage selected by the persistent \
         loader"
    );
}

#[test]
fn configured_authority_is_pinned() {
    let pages = HashMap::from([(0, header_page(12, 3)), (1, page(1)), (2, page(2))]);
    let mut buffer = BrowserBufferBackend::load_pages(pages);
    configure_sparse_authority(&mut buffer, HashSet::from([0, 1])).unwrap();
    assert!(buffer.is_sparse());
    assert_eq!(buffer.pinned_page_count(), 2);
    configure_sparse_authority(&mut buffer, HashSet::from([0])).unwrap();
    assert_eq!(buffer.pinned_page_count(), 1);
    assert_eq!(
        configure_sparse_authority(&mut buffer, HashSet::from([7])),
        Err(BufferError::PinOutsideLogical { page_id: 7, logical: 3 })
    );
}

#[test]
fn opening_follows_the_stored_page_zero() {
    assert_eq!(plan_open(&None), Ok(OpenPlan::CreateImage));
    assert_eq!(plan_open(&Some(header_page(12, 1))), Ok(OpenPlan::LoadSparsely));
    assert_eq!(plan_open(&Some(header_page(13, 1))), Ok(OpenPlan::LoadSparsely));
    assert_eq!(plan_open(&Some(header_page(11, 1))), Ok(OpenPlan::LoadAndMigrate));
    assert_eq!(
        plan_open(&Some(vec![0; 4])),
        Err(StorageError::HeaderTooShort { len: 4 })
    );
    assert!(admit_fresh_store(0).is_ok());
    assert_eq!(
        admit_fresh_store(1).unwrap_err().message(),
        "IndexedDB contains page records but published page 0 is missing"
    );
    let paged = BrowserOpenMode::Paged;
    let eager = BrowserOpenMode::EagerCompatibility;
    assert!(fresh_buffer(header_page(12, 1), paged).unwrap().is_sparse());
    assert!(!fresh_buffer(header_page(12, 1), eager).unwrap().is_sparse());
    assert!(fresh_buffer(header_page(11, 1), paged).is_err());
    assert_eq!(after_sparse_open(paged, true), SparseOutcome::Use);
    assert_eq!(after_sparse_open(paged, false), SparseOutcome::Report);
    assert_eq!(after_sparse_open(eager, true), SparseOutcome::Prefetch);
    assert_eq!(after_sparse_open(eager, false), SparseOutcome::LoadAndMigrate);
}

/// An eager image of two published pages, a changed second page and a stray
/// third one.
fn migrated(changed: bool) -> BrowserBufferBackend {
    let pages = HashMap::from([(0, header_page(12, 2)), (1, page(1)), (2, page(9))]);
    let mut buffer = BrowserBufferBackend::load_pages(pages);
    if changed {
        buffer.write_page(1, &page(5)).unwrap();
        buffer.write_page(2, &page(6)).unwrap();
    }
    buffer
}

#[test]
fn migration_is_made_durable_before_it_is_used() {
    let (_, action) = MigratedImage::new(migrated(false), 3).unwrap();
    assert!(matches!(action, MigrationAction::Keep));
    let (_, action) = MigratedImage::new(migrated(true), 2).unwrap();
    assert!(matches!(action, MigrationAction::WriteChanged(pages) if pages == [(1, page(5))]));
    let (image, action) = MigratedImage::new(migrated(true), 3).unwrap();
    let whole = [(0, header_page(12, 2)), (1, page(5))];
    assert!(matches!(action, MigrationAction::ReplaceStore(pages) if pages == whole));
    assert_eq!(image.buffer().dirty_page_count(), 0);
    let (buffer, sparse) = image.settle(BrowserOpenMode::Paged, Ok(HashSet::from([0]))).unwrap();
    assert!(sparse && buffer.is_sparse());
    assert_eq!(buffer.resident_page_count(), 1);

    let image = || MigratedImage::new(migrated(false), 3).unwrap().0;
    let eager = BrowserOpenMode::EagerCompatibility;
    let (buffer, sparse) = image().settle(eager, Err("not asked for".to_owned())).unwrap();
    assert!(!sparse && !buffer.is_sparse());
    assert_eq!(buffer.resident_page_count(), 2);
    assert_eq!(
        image().settle(BrowserOpenMode::Paged, Err("why".to_owned())).err().unwrap(),
        "openPaged cannot silently fall back to eager residency: why"
    );
    let outside = BufferError::PinOutsideDeclared { page_id: 7, declared: 2 };
    assert_eq!(
        image().settle(BrowserOpenMode::Paged, Ok(HashSet::from([7]))).err().unwrap(),
        format!("openPaged cannot silently fall back to eager residency: {}", outside.message())
    );
    let headless = BrowserBufferBackend::load_pages(HashMap::from([(1, page(1))]));
    assert!(MigratedImage::new(headless, 1).is_err());
}

#[test]
fn authority_is_read_off_page_zero() {
    assert_eq!(authority_page(&BrowserBufferBackend::new()), Ok(None));
    assert_eq!(authority_page(&migrated(false)), Ok(Some(header_page(12, 2))));
    let holed = BrowserBufferBackend::load_pages(HashMap::from([(1, page(1))]));
    assert_eq!(authority_page(&holed), Err(BufferError::PageNotFound { page_id: 0 }));
}

#[test]
fn bootstrap_gathers_and_repins_metadata() {
    let mut bootstrap = SparseBootstrap::new(header_page(12, 10));
    bootstrap.add_range(Some(vec![(1, page(1)), (5, page(5))]));
    bootstrap.add_range(None);
    let mut buffer = bootstrap.into_backend(10).unwrap();
    assert_eq!(buffer.pinned_page_count(), 3);
    buffer.stage_clean_pages(vec![(7, page(7))]).unwrap();
    pin_selected_authority(&mut buffer, &vec![], &candidates()).unwrap();
    assert_eq!(buffer.pinned_page_count(), 3);
    assert_eq!(buffer.evict_all_clean_unpinned(), 1);
    assert!(buffer.is_page_resident(7) && !buffer.is_page_resident(1));
    assert_eq!(
        SparseBootstrap::new(header_page(12, 10)).into_backend(9).err(),
        Some(BufferError::PageCountMismatch { published: 10, declared: 9 })
    );
}

#[test]
fn exported_image_can_be_imported_again() {
    let pages = HashMap::from([(0, header_page(12, 3)), (1, page(1)), (2, page(2))]);
    let buffer = BrowserBufferBackend::load_pages(pages.clone());
    let blob = export_verified(&buffer, &vec![Ok(()); 3]).unwrap();
    assert_eq!(blob.len(), 3 * PAGE_SIZE);
    assert_eq!(split_import(&blob).unwrap(), pages);
    let mut with_tail = blob.clone();
    with_tail.extend_from_slice(&[1, 2, 3]);
    assert_eq!(split_import(&with_tail).unwrap(), pages);
    assert_eq!(
        split_import(&vec![0; PAGE_SIZE - 1]).unwrap_err().message(),
        "import data is shorter than one complete .graph header page"
    );
    let mut batched = Vec::new();
    append_batch(&mut batched, &vec![(0, header_page(12, 3)), (1, page(1))]);
    append_page(&mut batched, &page(2));
    assert_eq!(batched, blob);
    assert_eq!(export_capacity(3), Ok(3 * PAGE_SIZE));
    assert_eq!(export_capacity(1 << 60), Err(ExportError::TooLarge));
    assert_eq!(paged_export_capacity(1 << 60), Err(ExportError::TooLarge));
    let hole = HashMap::from([(0, header_page(12, 3)), (2, page(2))]);
    assert_eq!(
        export_verified(&BrowserBufferBackend::load_pages(hole), &vec![]),
        Err(VerifiedExportError::Image(ExportError::Buffer(BufferError::Truncated {
            expected: 3,
            found: 2
        })))
    );
}

#[test]
fn imported_export_is_byte_exact() {
    let pages = HashMap::from([
        (0, header_page(FORMAT_VERSION, 3)),
        (1, page(1)),
        (2, page(2)),
        (3, page(9)),
    ]);
    let first = BrowserBufferBackend::load_pages(pages);
    let blob = export_verified(&first, &vec![Ok(()); 3]).unwrap();
    assert_eq!(blob.len() % PAGE_SIZE, 0);
    let imported = BrowserBufferBackend::load_pages_all_dirty(split_import(&blob).unwrap());
    let sealed = SealedImport::new(imported).unwrap();
    let (_, replacement) = sealed
        .accept(
            BrowserImportPolicy::RecoveryCompatible,
            BrowserOpenMode::EagerCompatibility,
            Ok(HashSet::new()),
        )
        .unwrap();
    let mut db = BrowserDb::open_in_memory(header_page(FORMAT_VERSION, 1));
    replacement.settle(&mut db, Ok(())).unwrap();
    assert_eq!(export_verified(db.buffer(), &vec![Ok(()); 3]).unwrap(), blob);
}

#[test]
fn one_rejected_page_fails_the_export() {
    let pages = HashMap::from([(0, header_page(12, 3)), (1, page(1)), (2, page(2))]);
    let buffer = BrowserBufferBackend::load_pages(pages);
    let rejected = |reason: &str| Err(reason.to_owned());
    let error =
        export_verified(&buffer, &vec![Ok(()), rejected("page 1 is corrupt"), rejected("page 2")])
            .unwrap_err();
    assert_eq!(error, VerifiedExportError::Rejected("page 1 is corrupt".to_owned()));
    assert_eq!(error.message(), "page 1 is corrupt");
    assert!(export_verified(&buffer, &vec![rejected("header"), Ok(()), Ok(())]).is_err());
    assert!(export_verified(&buffer, &vec![Ok(()), Ok(()), rejected("last")]).is_err());
    let size = ExportError::TooLarge;
    assert_eq!(VerifiedExportError::Image(size).message(), size.message());
}

#[test]
fn paged_export_joins_only_verified_batches() {
    let mut export = PagedExport::new(257).unwrap();
    let first = export.next_batch().unwrap();
    assert_eq!((first.start, first.count), (0, 256));
    let pages: Vec<_> = (0..256).map(|id| (id, page(id as u8))).collect();
    assert_eq!(export.accept(&pages, Err("corrupt".to_owned())), Err("corrupt".to_owned()));
    assert_eq!(export.next_batch(), Some(first));
    assert_eq!(export.accept(&pages, Ok(())), Ok(()));
    let second = export.next_batch().unwrap();
    assert_eq!((second.start, second.count), (256, 1));
    assert_eq!(export.accept(&vec![(256, page(9))], Ok(())), Ok(()));
    assert_eq!(export.next_batch(), None);
    let blob = export.finish(Ok(())).unwrap();
    assert_eq!(blob.len(), 257 * PAGE_SIZE);
    assert_eq!(blob[255 * PAGE_SIZE..256 * PAGE_SIZE], page(255)[..]);
    assert_eq!(blob[256 * PAGE_SIZE..], page(9)[..]);

    let empty = PagedExport::new(0).unwrap();
    assert_eq!(empty.next_batch(), None);
    assert_eq!(empty.finish(Err("unfinished".to_owned())), Err("unfinished".to_owned()));
    assert!(matches!(PagedExport::new(1 << 60), Err(ExportError::TooLarge)));
}

fn imported(version: u32) -> BrowserBufferBackend {
    let pages = HashMap::from([(0, header_page(version, 2)), (1, page(1)), (2, page(9))]);
    let mut buffer = BrowserBufferBackend::load_pages_all_dirty(pages);
    let sealed = seal_import(&mut buffer).unwrap();
    assert_eq!(sealed, vec![(0, header_page(version, 2)), (1, page(1))]);
    assert_eq!(buffer.dirty_page_count(), 0);
    assert_eq!(page_zero_version(&buffer), Ok(version));
    buffer
}

#[test]
fn imports_are_admitted_by_policy_and_mode() {
    let loose = BrowserImportPolicy::RecoveryCompatible;
    let strict = BrowserImportPolicy::RequirePagedReady;
    let paged = BrowserOpenMode::Paged;
    let eager = BrowserOpenMode::EagerCompatibility;
    let pins = || HashSet::from([0]);

    let mut buffer = imported(12);
    assert_eq!(admit_import(&mut buffer, strict, paged, 12, pins()), Ok(true));
    assert_eq!(buffer.resident_page_count(), 1);
    let mut buffer = imported(12);
    assert_eq!(admit_import(&mut buffer, strict, eager, 12, pins()), Ok(false));
    assert_eq!(buffer.resident_page_count(), 2);
    let mut buffer = imported(10);
    assert_eq!(admit_import(&mut buffer, loose, paged, 10, pins()), Ok(false));
    let mut buffer = imported(10);
    assert_eq!(
        admit_import(&mut buffer, strict, paged, 10, pins()).unwrap_err().message(),
        "strict paged import requires a paged-ready v11..=v13 format, but recovery selected v10"
    );
    let mut buffer = imported(9);
    assert_eq!(
        admit_import(&mut buffer, loose, paged, 9, pins()).unwrap_err().message(),
        "openPaged import cannot represent recovered format v9 as bounded authority"
    );
    let mut buffer = imported(12);
    assert!(matches!(
        admit_import(&mut buffer, strict, eager, 12, HashSet::from([7])),
        Err(ImportError::StrictNotReady(BufferError::PinOutsideDeclared {
            page_id: 7,
            declared: 2
        }))
    ));
}

#[test]
fn only_a_pageable_image_is_asked_for_its_authority() {
    let strict = BrowserImportPolicy::RequirePagedReady;
    let loose = BrowserImportPolicy::RecoveryCompatible;
    let paged = BrowserOpenMode::Paged;
    let eager = BrowserOpenMode::EagerCompatibility;
    assert!(import_needs_authority(strict, eager, 12));
    assert!(import_needs_authority(loose, paged, 13));
    assert!(!import_needs_authority(loose, eager, 12));
    assert!(!import_needs_authority(strict, paged, 10));
    assert!(!import_needs_authority(strict, paged, 14));
    assert_eq!(
        authority_refusal(strict, "no manifest"),
        "strict paged import candidate is not openPaged-ready: no manifest"
    );
    assert_eq!(authority_refusal(loose, "no manifest"), "no manifest");
}

#[test]
fn refused_import_leaves_the_handle_alone() {
    let strict = BrowserImportPolicy::RequirePagedReady;
    let paged = BrowserOpenMode::Paged;
    let sealed = || SealedImport::new(imported(12)).unwrap();
    assert!(sealed().needs_authority(strict, paged));
    assert_eq!(
        sealed().accept(strict, paged, Err("no manifest".to_owned())).err().unwrap(),
        "strict paged import candidate is not openPaged-ready: no manifest"
    );
    let old = SealedImport::new(imported(10)).unwrap();
    assert!(!old.needs_authority(strict, paged));
    assert_eq!(
        old.accept(strict, paged, Err("not asked for".to_owned())).err().unwrap(),
        "strict paged import requires a paged-ready v11..=v13 format, but recovery selected v10"
    );
    assert!(matches!(
        SealedImport::new(BrowserBufferBackend::new()),
        Err(ImportError::Buffer(_))
    ));

    let mut db = BrowserDb::open_from_idb_mode(imported(10), paged, false);
    let pins = || Ok(HashSet::from([0]));
    let (pages, replacement) = sealed().accept(strict, paged, pins()).unwrap();
    assert_eq!(pages.len(), 2);
    assert_eq!(replacement.settle(&mut db, Err("quota".to_owned())).unwrap_err(), "quota");
    assert_eq!(page_zero_version(db.buffer()), Ok(10));
    assert!(!db.guard().paged);
    let (_, replacement) = sealed().accept(strict, paged, pins()).unwrap();
    assert_eq!(replacement.settle(&mut db, Ok(())).unwrap(), "");
    assert_eq!(page_zero_version(db.buffer()), Ok(12));
    assert!(db.guard().paged);
    assert_eq!(db.buffer().resident_page_count(), 1);
}

#[test]
fn published_store_reads_back_as_the_image() {
    let mut store = HashMap::from([(0, header_page(12, 2)), (1, page(1))]);
    let authority = ImageAuthority::new(store.get(&0).cloned());
    let mut buffer = BrowserBufferBackend::load_pages(store.clone());
    buffer.write_page(0, &header_page(12, 3)).unwrap();
    buffer.write_page(2, &page(2)).unwrap();
    let shown = buffer.all_pages();

    let mut db = BrowserDb::open_from_idb_mode(buffer, BrowserOpenMode::Paged, true);
    let decision = DeltaMaintenanceDecision::ContinueDeltaAppend;
    let collected = db.start_checkpoint().saved(&mut db, Ok(HashSet::from([0])), decision);
    let Ok(Collected::Publish { pages, receipt }) = collected else {
        panic!("two pages are dirty")
    };
    let publication = prepare_write(pages).unwrap().unwrap();
    let observed = bytes_of(&store[&0]);
    apply(&mut store, guarded_requests(&authority, observed, &publication).unwrap());
    receipt.settle(&mut db, PublicationOutcome::Published).unwrap();
    assert_eq!(db.buffer().all_pages(), vec![(0, header_page(12, 3))]);
    assert_eq!(BrowserBufferBackend::load_pages(store.clone()).all_pages(), shown);

    let image = BrowserBufferBackend::load_pages(HashMap::from([(0, header_page(12, 1))]));
    let publication = prepare_replace(image.all_pages()).unwrap();
    let authority = ImageAuthority::new(store.get(&0).cloned());
    let observed = bytes_of(&store[&0]);
    apply(&mut store, guarded_requests(&authority, observed, &publication).unwrap());
    assert_eq!(BrowserBufferBackend::load_pages(store).all_pages(), image.all_pages());
}
