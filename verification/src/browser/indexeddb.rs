//! Rules of the IndexedDB page store.
//!
//! The store maps numeric page ids to single pages. Page 0 is also the
//! publication authority: a handle pins the page 0 that it opened on, and
//! every read and every publication is refused once the stored page 0 differs.

use crate::browser::buffer::{batch_bytes, copy_bytes};
use crate::collections::page_bytes;
use crate::storage::PAGE_SIZE;
use crate::text::{decimal, push_decimal};
use std::collections::HashMap;
use vstd::prelude::*;
use vstd::string::*;

verus! {

broadcast use vstd::std_specs::hash::group_hash_axioms;

/// Largest integer that JavaScript numbers can represent without aliasing.
pub const MAX_SAFE_PAGE_ID: u64 = 9_007_199_254_740_991;

/// Why the page store refused a request or a record.
#[derive(Clone, Copy, Debug, PartialEq, Eq, Structural)]
pub enum IdbError {
    /// A page id has no exact JavaScript number.
    UnsafePageId { page_id: u64 },
    /// The key at this position is not a non-negative safe integer.
    InvalidKey { position: usize },
    /// The key at one place of a range is not the next page id.
    NotContiguous { expected: u64, found: u64 },
    /// A page is not stored as bytes.
    NotBytes { page_id: u64 },
    /// A stored page is not exactly one page long.
    InvalidLength { page_id: u64, len: usize },
    /// Another handle has published since this one opened.
    StaleImage,
    /// A publication names page 0 twice.
    DuplicatePageZero,
    /// A publication's page 0 is not exactly one page long.
    PublicationPageZeroLength { len: usize },
    /// A publication has no page 0.
    MissingNextPageZero,
    /// A range is too long for one request.
    BatchTooLarge,
    /// A range ends beyond the last page id.
    RangeOverflow,
    /// The store returned keys and values of different number.
    KeysAndValuesDiffer,
    /// A required page has no record.
    MissingPage { page_id: u64 },
    /// A required range has a missing or faulty record.
    CorruptRange { start_page: u64, page_count: u64 },
}

impl IdbError {
    /// The text reported for this error.
    pub open spec fn text(self) -> Seq<char> {
        match self {
            IdbError::UnsafePageId { page_id } => "IndexedDB page id "@ + decimal(page_id as nat)
                + " exceeds JavaScript's maximum safe integer"@,
            IdbError::InvalidKey { position } => "IndexedDB page key at position "@ + decimal(
                position as nat,
            ) + " is not a non-negative safe integer"@,
            IdbError::NotContiguous { expected, found } =>
                "IndexedDB page range is not contiguous: expected page "@ + decimal(expected as nat)
                + ", found page "@ + decimal(found as nat),
            IdbError::NotBytes { page_id } => "IndexedDB page "@ + decimal(page_id as nat)
                + " is not stored as a Uint8Array"@,
            IdbError::InvalidLength { page_id, len } => "IndexedDB page "@ + decimal(
                page_id as nat,
            ) + " has invalid length "@ + decimal(len as nat) + " (expected "@ + decimal(
                PAGE_SIZE as nat,
            ) + ")"@,
            IdbError::StaleImage =>
                "IndexedDB page-0 publication authority changed after this handle opened; reopen the database handle"@,
            IdbError::DuplicatePageZero => "IndexedDB publication contains duplicate page 0"@,
            IdbError::PublicationPageZeroLength { len } =>
                "IndexedDB publication page 0 has invalid length "@ + decimal(len as nat)
                + " (expected "@ + decimal(PAGE_SIZE as nat) + ")"@,
            IdbError::MissingNextPageZero =>
                "Every non-empty IndexedDB publication must include page 0"@,
            IdbError::BatchTooLarge =>
                "IndexedDB page batch exceeds the u32 getAll limit; split it into smaller ranges"@,
            IdbError::RangeOverflow => "IndexedDB page range overflows u64"@,
            IdbError::KeysAndValuesDiffer =>
                "IndexedDB numeric page keys and values have different lengths"@,
            IdbError::MissingPage { page_id } => "IndexedDB page "@ + decimal(page_id as nat)
                + " is missing"@,
            IdbError::CorruptRange { start_page, page_count } =>
                "IndexedDB page range starting at "@ + decimal(start_page as nat) + " with "@
                + decimal(page_count as nat) + " pages is missing or corrupt"@,
        }
    }

    /// Render this error for a caller.
    pub fn message(&self) -> (text: String)
        ensures
            text@ == self.text(),
    {
        let mut out = String::new();
        match self {
            IdbError::UnsafePageId { page_id } => {
                out.append("IndexedDB page id ");
                push_decimal(&mut out, *page_id);
                out.append(" exceeds JavaScript's maximum safe integer");
            },
            IdbError::InvalidKey { position } => {
                out.append("IndexedDB page key at position ");
                push_decimal(&mut out, *position as u64);
                out.append(" is not a non-negative safe integer");
            },
            IdbError::NotContiguous { expected, found } => {
                out.append("IndexedDB page range is not contiguous: expected page ");
                push_decimal(&mut out, *expected);
                out.append(", found page ");
                push_decimal(&mut out, *found);
            },
            IdbError::NotBytes { page_id } => {
                out.append("IndexedDB page ");
                push_decimal(&mut out, *page_id);
                out.append(" is not stored as a Uint8Array");
            },
            IdbError::InvalidLength { page_id, len } => {
                out.append("IndexedDB page ");
                push_decimal(&mut out, *page_id);
                out.append(" has invalid length ");
                push_decimal(&mut out, *len as u64);
                out.append(" (expected ");
                push_decimal(&mut out, PAGE_SIZE as u64);
                out.append(")");
            },
            IdbError::StaleImage => out.append(
                "IndexedDB page-0 publication authority changed after this handle opened; reopen the database handle",
            ),
            IdbError::DuplicatePageZero => out.append(
                "IndexedDB publication contains duplicate page 0",
            ),
            IdbError::PublicationPageZeroLength { len } => {
                out.append("IndexedDB publication page 0 has invalid length ");
                push_decimal(&mut out, *len as u64);
                out.append(" (expected ");
                push_decimal(&mut out, PAGE_SIZE as u64);
                out.append(")");
            },
            IdbError::MissingNextPageZero => out.append(
                "Every non-empty IndexedDB publication must include page 0",
            ),
            IdbError::BatchTooLarge => out.append(
                "IndexedDB page batch exceeds the u32 getAll limit; split it into smaller ranges",
            ),
            IdbError::RangeOverflow => out.append("IndexedDB page range overflows u64"),
            IdbError::KeysAndValuesDiffer => out.append(
                "IndexedDB numeric page keys and values have different lengths",
            ),
            IdbError::MissingPage { page_id } => {
                out.append("IndexedDB page ");
                push_decimal(&mut out, *page_id);
                out.append(" is missing");
            },
            IdbError::CorruptRange { start_page, page_count } => {
                out.append("IndexedDB page range starting at ");
                push_decimal(&mut out, *start_page);
                out.append(" with ");
                push_decimal(&mut out, *page_count);
                out.append(" pages is missing or corrupt");
            },
        }
        assert(out@ =~= self.text());
        out
    }
}

/// A value as the page store returned it.
#[derive(Debug, PartialEq, Eq)]
pub enum StoredValue {
    /// No record.
    Absent,
    /// A record that is not a byte array.
    Other,
    /// A byte array.
    Bytes(Vec<u8>),
}

/// The page, or the error, that a stored value stands for.
pub open spec fn page_value(page_id: u64, value: StoredValue) -> Result<Seq<u8>, IdbError> {
    match value {
        StoredValue::Bytes(bytes) => if bytes@.len() == PAGE_SIZE {
            Ok(bytes@)
        } else {
            Err(IdbError::InvalidLength { page_id, len: bytes@.len() as usize })
        },
        _ => Err(IdbError::NotBytes { page_id }),
    }
}

/// Accept a page id that JavaScript numbers represent exactly.
pub fn validate_page_id(page_id: u64) -> (result: Result<(), IdbError>)
    ensures
        result == if page_id > MAX_SAFE_PAGE_ID {
            Err::<(), IdbError>(IdbError::UnsafePageId { page_id })
        } else {
            Ok(())
        },
{
    if page_id > MAX_SAFE_PAGE_ID {
        return Err(IdbError::UnsafePageId { page_id });
    }
    Ok(())
}

/// Accept the key of one place of a range: it must be the expected page id.
///
/// `key` is `None` where the stored key is not a non-negative safe integer.
pub fn validate_page_key(key: Option<u64>, position: usize, expected_page_id: u64) -> (result:
    Result<(), IdbError>)
    ensures
        result == match key {
            None => Err::<(), IdbError>(IdbError::InvalidKey { position }),
            Some(found) => if found != expected_page_id {
                Err(IdbError::NotContiguous { expected: expected_page_id, found })
            } else {
                Ok(())
            },
        },
{
    match key {
        None => Err(IdbError::InvalidKey { position }),
        Some(found) => {
            if found != expected_page_id {
                return Err(IdbError::NotContiguous { expected: expected_page_id, found });
            }
            Ok(())
        },
    }
}

/// Read one complete page off a stored value.
pub fn decode_page_value(page_id: u64, value: StoredValue) -> (result: Result<Vec<u8>, IdbError>)
    ensures
        match result {
            Ok(page) => page_value(page_id, value) == Ok::<Seq<u8>, IdbError>(page@),
            Err(fault) => page_value(page_id, value) == Err::<Seq<u8>, IdbError>(fault),
        },
{
    match value {
        StoredValue::Bytes(bytes) => {
            if bytes.len() != PAGE_SIZE {
                return Err(IdbError::InvalidLength { page_id, len: bytes.len() });
            }
            Ok(bytes)
        },
        _ => Err(IdbError::NotBytes { page_id }),
    }
}

/// The publication authority that a stored page 0 stands for.
pub open spec fn authority_value(value: StoredValue) -> Result<Option<Seq<u8>>, IdbError> {
    match value {
        StoredValue::Absent => Ok(None),
        _ => match page_value(0, value) {
            Ok(page) => Ok(Some(page)),
            Err(fault) => Err(fault),
        },
    }
}

/// An optional page as a byte sequence.
pub open spec fn authority_bytes(authority: Option<Vec<u8>>) -> Option<Seq<u8>> {
    match authority {
        Some(page) => Some(page@),
        None => None,
    }
}

/// Read the publication authority off the stored page 0, absent in a fresh
/// store.
pub fn decode_optional_page_zero(value: StoredValue) -> (result: Result<
    Option<Vec<u8>>,
    IdbError,
>)
    ensures
        match result {
            Ok(authority) => authority_value(value) == Ok::<Option<Seq<u8>>, IdbError>(
                authority_bytes(authority),
            ),
            Err(fault) => authority_value(value) == Err::<Option<Seq<u8>>, IdbError>(fault),
        },
{
    if let StoredValue::Absent = value {
        return Ok(None);
    }
    match decode_page_value(0, value) {
        Ok(page) => Ok(Some(page)),
        Err(fault) => Err(fault),
    }
}

/// Compare two byte vectors.
pub fn same_bytes(left: &Vec<u8>, right: &Vec<u8>) -> (same: bool)
    ensures
        same == (left@ == right@),
{
    if left.len() != right.len() {
        return false;
    }
    let mut i: usize = 0;
    while i < left.len()
        invariant
            i <= left.len(),
            left.len() == right.len(),
            forall|j: int| 0 <= j < i ==> left@[j] == right@[j],
        decreases left.len() - i,
    {
        if left[i] != right[i] {
            assert(left@[i as int] != right@[i as int]);
            return false;
        }
        i += 1;
    }
    assert(left@ =~= right@);
    true
}

/// Refuse an image whose page 0 differs from the expected one.
pub fn ensure_expected_authority(expected: &Option<Vec<u8>>, observed: &Option<Vec<u8>>) -> (result:
    Result<(), IdbError>)
    ensures
        result == if authority_bytes(*expected) == authority_bytes(*observed) {
            Ok::<(), IdbError>(())
        } else {
            Err(IdbError::StaleImage)
        },
{
    let same = match (expected, observed) {
        (None, None) => true,
        (Some(left), Some(right)) => same_bytes(left, right),
        _ => false,
    };
    if !same {
        return Err(IdbError::StaleImage);
    }
    Ok(())
}

/// One contiguous range read as it is put to the page store.
#[derive(Clone, Copy, Debug, PartialEq, Eq, Structural)]
pub enum RangeRequest {
    /// Nothing to fetch: only the authority has to be verified.
    AuthorityOnly,
    /// Fetch every record between these page ids, both included.
    Fetch { first_page: u64, last_page: u64, count: u32 },
}

/// The request that reads `page_count` pages from `start_page`, or why there
/// is none.
pub open spec fn range_request(start_page: u64, page_count: u64) -> Result<RangeRequest, IdbError> {
    let last = start_page + page_count - 1;
    if page_count == 0 {
        Ok(RangeRequest::AuthorityOnly)
    } else if page_count > u32::MAX {
        Err(IdbError::BatchTooLarge)
    } else if last > u64::MAX {
        Err(IdbError::RangeOverflow)
    } else if start_page > MAX_SAFE_PAGE_ID {
        Err(IdbError::UnsafePageId { page_id: start_page })
    } else if last > MAX_SAFE_PAGE_ID {
        Err(IdbError::UnsafePageId { page_id: last as u64 })
    } else {
        Ok(
            RangeRequest::Fetch {
                first_page: start_page,
                last_page: last as u64,
                count: page_count as u32,
            },
        )
    }
}

/// Plan the read of a contiguous page range.
pub fn plan_page_range(start_page: u64, page_count: u64) -> (result: Result<RangeRequest, IdbError>)
    ensures
        result == range_request(start_page, page_count),
{
    if page_count == 0 {
        return Ok(RangeRequest::AuthorityOnly);
    }
    if page_count > 0xFFFF_FFFF {
        return Err(IdbError::BatchTooLarge);
    }
    let last_page: u64 = match start_page.checked_add(page_count - 1) {
        Some(last) => last,
        None => return Err(IdbError::RangeOverflow),
    };
    if let Err(fault) = validate_page_id(start_page) {
        return Err(fault);
    }
    if let Err(fault) = validate_page_id(last_page) {
        return Err(fault);
    }
    Ok(RangeRequest::Fetch { first_page: start_page, last_page, count: page_count as u32 })
}

/// The returned records are exactly the complete pages of the range.
pub open spec fn complete_range(
    start_page: u64,
    count: u32,
    keys: Seq<Option<u64>>,
    values: Seq<StoredValue>,
) -> bool {
    &&& keys.len() == values.len()
    &&& keys.len() == count
    &&& forall|i: int|
        0 <= i < count ==> #[trigger] keys[i] == Some((start_page + i) as u64) && page_value(
            (start_page + i) as u64,
            values[i],
        ) is Ok
}

/// Assemble a range read: every page of the range in ascending order, or
/// nothing where a record is missing or faulty.
///
/// A missing candidate is no error, so that recovery can try an older one.
pub fn assemble_page_range(
    start_page: u64,
    count: u32,
    keys: Vec<Option<u64>>,
    values: Vec<StoredValue>,
) -> (pages: Option<Vec<(u64, Vec<u8>)>>)
    requires
        start_page + count <= u64::MAX,
    ensures
        pages is Some <==> complete_range(start_page, count, keys@, values@),
        pages matches Some(pages) ==> pages@.len() == count && forall|i: int|
            0 <= i < count ==> (#[trigger] pages@[i]).0 == start_page + i && page_value(
                (start_page + i) as u64,
                values@[i],
            ) == Ok::<Seq<u8>, IdbError>(pages@[i].1@),
{
    if keys.len() != values.len() {
        return None;
    }
    if keys.len() as u64 != count as u64 {
        return None;
    }
    let mut pages: Vec<(u64, Vec<u8>)> = Vec::new();
    let mut offset: usize = 0;
    for value in it: values
        invariant
            it.seq() == values@,
            keys@.len() == values@.len(),
            keys@.len() == count,
            start_page + count <= u64::MAX,
            offset == it.index(),
            pages@.len() == offset,
            forall|i: int|
                0 <= i < offset ==> #[trigger] keys@[i] == Some((start_page + i) as u64)
                    && page_value((start_page + i) as u64, values@[i]) is Ok,
            forall|i: int|
                0 <= i < offset ==> (#[trigger] pages@[i]).0 == start_page + i && page_value(
                    (start_page + i) as u64,
                    values@[i],
                ) == Ok::<Seq<u8>, IdbError>(pages@[i].1@),
    {
        let page_id: u64 = start_page + offset as u64;
        assert(value == values@[offset as int]);
        if validate_page_key(keys[offset], offset, page_id).is_err() {
            assert(keys@[offset as int] != Some((start_page + offset) as u64));
            return None;
        }
        match decode_page_value(page_id, value) {
            Ok(page) => pages.push((page_id, page)),
            Err(_) => {
                assert(keys@[offset as int] == Some((start_page + offset) as u64));
                assert(page_value((start_page + offset) as u64, values@[offset as int]) is Err);
                return None;
            },
        }
        offset += 1;
    }
    Some(pages)
}

/// Require the pages of a range.
pub fn require_page_range(
    start_page: u64,
    page_count: u64,
    pages: Option<Vec<(u64, Vec<u8>)>>,
) -> (result: Result<Vec<(u64, Vec<u8>)>, IdbError>)
    ensures
        result == match pages {
            Some(pages) => Ok::<Vec<(u64, Vec<u8>)>, IdbError>(pages),
            None => Err(IdbError::CorruptRange { start_page, page_count }),
        },
{
    match pages {
        Some(pages) => Ok(pages),
        None => Err(IdbError::CorruptRange { start_page, page_count }),
    }
}

/// Require the page of a single read.
pub fn require_page(page_id: u64, page: Option<Vec<u8>>) -> (result: Result<Vec<u8>, IdbError>)
    ensures
        result == match page {
            Some(page) => Ok::<Vec<u8>, IdbError>(page),
            None => Err(IdbError::MissingPage { page_id }),
        },
{
    match page {
        Some(page) => Ok(page),
        None => Err(IdbError::MissingPage { page_id }),
    }
}

/// The outcome of a single read: nothing, a complete page, or an error.
pub open spec fn single_page(page_id: u64, value: StoredValue) -> Result<
    Option<Seq<u8>>,
    IdbError,
> {
    match value {
        StoredValue::Absent => Ok(None),
        _ => match page_value(page_id, value) {
            Ok(page) => Ok(Some(page)),
            Err(fault) => Err(fault),
        },
    }
}

/// Decode a single read.
///
/// An absent record is told apart from a malformed one.
pub fn decode_single_page(page_id: u64, value: StoredValue) -> (result: Result<
    Option<Vec<u8>>,
    IdbError,
>)
    ensures
        match result {
            Ok(page) => single_page(page_id, value) == Ok::<Option<Seq<u8>>, IdbError>(
                authority_bytes(page),
            ),
            Err(fault) => single_page(page_id, value) == Err::<Option<Seq<u8>>, IdbError>(fault),
        },
{
    if let StoredValue::Absent = value {
        return Ok(None);
    }
    match decode_page_value(page_id, value) {
        Ok(page) => Ok(Some(page)),
        Err(fault) => Err(fault),
    }
}

/// The error, if any, of the record at one place of a full read.
pub open spec fn record_fault(keys: Seq<Option<u64>>, values: Seq<StoredValue>, i: int) -> Option<
    IdbError,
> {
    match keys[i] {
        None => Some(IdbError::InvalidKey { position: i as usize }),
        Some(id) => match page_value(id, values[i]) {
            Err(fault) => Some(fault),
            Ok(_) => None,
        },
    }
}

/// The pages of the first `n` records of a full read.
pub open spec fn records_map(keys: Seq<Option<u64>>, values: Seq<StoredValue>, n: nat) -> Map<
    u64,
    Seq<u8>,
>
    decreases n,
{
    if n == 0 {
        Map::empty()
    } else {
        records_map(keys, values, (n - 1) as nat).insert(
            keys[n - 1]->Some_0,
            page_value(keys[n - 1]->Some_0, values[n - 1])->Ok_0,
        )
    }
}

/// Assemble a read of the whole store.
pub fn assemble_all_pages(keys: Vec<Option<u64>>, values: Vec<StoredValue>) -> (result: Result<
    HashMap<u64, Vec<u8>>,
    IdbError,
>)
    ensures
        match result {
            Ok(pages) => {
                &&& keys@.len() == values@.len()
                &&& forall|i: int|
                    0 <= i < keys@.len() ==> #[trigger] record_fault(keys@, values@, i) is None
                &&& page_bytes(pages@) == records_map(keys@, values@, keys@.len())
            },
            Err(fault) => if keys@.len() != values@.len() {
                fault == IdbError::KeysAndValuesDiffer
            } else {
                exists|i: int|
                    0 <= i < keys@.len() && #[trigger] record_fault(keys@, values@, i) == Some(
                        fault,
                    ) && (forall|j: int|
                        0 <= j < i ==> #[trigger] record_fault(keys@, values@, j) is None)
            },
        },
{
    if keys.len() != values.len() {
        return Err(IdbError::KeysAndValuesDiffer);
    }
    let total: usize = keys.len();
    let mut pages: HashMap<u64, Vec<u8>> = HashMap::new();
    let mut i: usize = 0;
    assert(page_bytes(pages@) =~= Map::empty());
    for value in it: values
        invariant
            it.seq() == values@,
            keys@.len() == values@.len(),
            keys@.len() == total,
            i == it.index(),
            forall|j: int| 0 <= j < i ==> #[trigger] record_fault(keys@, values@, j) is None,
            page_bytes(pages@) == records_map(keys@, values@, i as nat),
    {
        assert(value == values@[i as int]);
        let page_id: u64 = match keys[i] {
            Some(id) => id,
            None => {
                assert(record_fault(keys@, values@, i as int) is Some);
                return Err(IdbError::InvalidKey { position: i });
            },
        };
        match decode_page_value(page_id, value) {
            Ok(page) => {
                assert(record_fault(keys@, values@, i as int) is None);
                let ghost was = pages@;
                pages.insert(page_id, page);
                assert(page_bytes(pages@) =~= page_bytes(was).insert(page_id, page@));
            },
            Err(fault) => {
                assert(record_fault(keys@, values@, i as int) == Some(fault));
                return Err(fault);
            },
        }
        i += 1;
    }
    Ok(pages)
}

/// What a batch of pages says of the next page 0: none, the one page 0, or the
/// first error.
pub open spec fn next_page_zero(batch: Seq<(u64, Seq<u8>)>) -> Result<Option<Seq<u8>>, IdbError>
    decreases batch.len(),
{
    if batch.len() == 0 {
        Ok(None)
    } else {
        let (page_id, page) = batch.last();
        match next_page_zero(batch.drop_last()) {
            Err(fault) => Err(fault),
            Ok(found) => if page_id != 0 {
                Ok(found)
            } else if found is Some {
                Err(IdbError::DuplicatePageZero)
            } else if page.len() != PAGE_SIZE {
                Err(IdbError::PublicationPageZeroLength { len: page.len() as usize })
            } else {
                Ok(Some(page))
            },
        }
    }
}

/// The next authority of a publication, or why it has none.
pub open spec fn required_page_zero(batch: Seq<(u64, Seq<u8>)>) -> Result<Seq<u8>, IdbError> {
    match next_page_zero(batch) {
        Err(fault) => Err(fault),
        Ok(Some(page)) => Ok(page),
        Ok(None) => Err(IdbError::MissingNextPageZero),
    }
}

/// Find the page 0 that every publication must carry exactly once.
pub fn required_next_page_zero(pages: &Vec<(u64, Vec<u8>)>) -> (result: Result<Vec<u8>, IdbError>)
    ensures
        match result {
            Ok(page) => required_page_zero(batch_bytes(pages@)) == Ok::<Seq<u8>, IdbError>(page@),
            Err(fault) => required_page_zero(batch_bytes(pages@)) == Err::<Seq<u8>, IdbError>(
                fault,
            ),
        },
{
    let ghost batch = batch_bytes(pages@);
    let mut page_zero: Option<Vec<u8>> = None;
    let mut i: usize = 0;
    assert(batch.take(0) =~= Seq::empty());
    while i < pages.len()
        invariant
            i <= pages.len(),
            batch == batch_bytes(pages@),
            next_page_zero(batch.take(i as int)) == Ok::<Option<Seq<u8>>, IdbError>(
                authority_bytes(page_zero),
            ),
        decreases pages.len() - i,
    {
        proof {
            assert(batch.take(i + 1).drop_last() =~= batch.take(i as int));
            assert(batch[i as int] == (pages@[i as int].0, pages@[i as int].1@));
        }
        if pages[i].0 == 0 {
            if page_zero.is_some() {
                proof {
                    lemma_fault_stays(batch, i + 1);
                }
                return Err(IdbError::DuplicatePageZero);
            }
            if pages[i].1.len() != PAGE_SIZE {
                proof {
                    lemma_fault_stays(batch, i + 1);
                }
                return Err(IdbError::PublicationPageZeroLength { len: pages[i].1.len() });
            }
            page_zero = Some(copy_bytes(pages[i].1.as_slice()));
        }
        i += 1;
    }
    assert(batch.take(batch.len() as int) =~= batch);
    match page_zero {
        Some(page) => Ok(page),
        None => Err(IdbError::MissingNextPageZero),
    }
}

proof fn lemma_fault_stays(batch: Seq<(u64, Seq<u8>)>, n: int)
    requires
        0 <= n <= batch.len(),
        next_page_zero(batch.take(n)) is Err,
    ensures
        next_page_zero(batch) == next_page_zero(batch.take(n)),
    decreases batch.len() - n,
{
    if n < batch.len() {
        assert(batch.take(n + 1).drop_last() =~= batch.take(n));
        lemma_fault_stays(batch, n + 1);
    } else {
        assert(batch.take(n) =~= batch);
    }
}

/// A stored value is a page exactly when it is a byte array of one page, and
/// then it is these bytes. An absent record is no fault where a record may be
/// absent.
pub proof fn law_only_full_byte_arrays_are_pages(page_id: u64, value: StoredValue)
    ensures
        page_value(page_id, value) is Ok <==> (value matches StoredValue::Bytes(bytes)
            && bytes@.len() == 4096),
        page_value(page_id, value) matches Ok(page) ==> (value matches StoredValue::Bytes(bytes)
            && bytes@ == page),
        value matches StoredValue::Bytes(bytes) ==> (bytes@.len() != 4096 ==> page_value(
            page_id,
            value,
        ) == Err::<Seq<u8>, IdbError>(
            IdbError::InvalidLength { page_id, len: bytes@.len() as usize },
        )),
        value !is Bytes ==> page_value(page_id, value) == Err::<Seq<u8>, IdbError>(
            IdbError::NotBytes { page_id },
        ),
        value is Absent ==> single_page(page_id, value) == Ok::<Option<Seq<u8>>, IdbError>(None)
            && authority_value(value) == Ok::<Option<Seq<u8>>, IdbError>(None),
        value !is Absent ==> (page_value(page_id, value) matches Ok(page) ==> single_page(
            page_id,
            value,
        ) == Ok::<Option<Seq<u8>>, IdbError>(Some(page))),
        value !is Absent ==> (page_value(page_id, value) matches Err(fault) ==> single_page(
            page_id,
            value,
        ) == Err::<Option<Seq<u8>>, IdbError>(fault)),
        value !is Absent ==> authority_value(value) == single_page(0, value),
{
}

/// A range read asks for exactly the pages of its range, and only for ids that
/// JavaScript numbers represent exactly. An empty range asks for no page.
pub proof fn law_range_request_asks_for_the_range(start_page: u64, page_count: u64)
    ensures
        page_count == 0 <==> range_request(start_page, page_count) == Ok::<RangeRequest, IdbError>(
            RangeRequest::AuthorityOnly,
        ),
        range_request(start_page, page_count) matches Ok(
            RangeRequest::Fetch { first_page, last_page, count },
        ) ==> {
            &&& first_page == start_page
            &&& count == page_count
            &&& last_page - first_page + 1 == page_count
            &&& last_page <= 9_007_199_254_740_991
        },
        0 < page_count <= u32::MAX && start_page + page_count - 1 <= 9_007_199_254_740_991 <==> (
        range_request(start_page, page_count) matches Ok(request) && request is Fetch),
        page_count > u32::MAX <==> range_request(start_page, page_count) == Err::<
            RangeRequest,
            IdbError,
        >(IdbError::BatchTooLarge),
        0 < page_count <= u32::MAX && start_page + page_count - 1 > u64::MAX <==> range_request(
            start_page,
            page_count,
        ) == Err::<RangeRequest, IdbError>(IdbError::RangeOverflow),
        range_request(start_page, page_count) matches Err(IdbError::UnsafePageId { page_id }) ==> {
            &&& page_id > 9_007_199_254_740_991
            &&& page_id == start_page || page_id == start_page + page_count - 1
            &&& start_page > 9_007_199_254_740_991 ==> page_id == start_page
        },
{
}

/// A range read is complete exactly when the store gave back one full page for
/// every id of the range, in order, and nothing else.
pub proof fn law_complete_range_holds_every_page(
    start_page: u64,
    count: u32,
    keys: Seq<Option<u64>>,
    values: Seq<StoredValue>,
)
    requires
        start_page + count <= u64::MAX,
    ensures
        complete_range(start_page, count, keys, values) <==> {
            &&& keys.len() == count
            &&& values.len() == count
            &&& forall|i: int|
                0 <= i < count ==> (#[trigger] keys[i] matches Some(id) && id == start_page + i) && (
                values[i] matches StoredValue::Bytes(bytes) && bytes@.len() == 4096)
        },
{
    if complete_range(start_page, count, keys, values) {
        assert forall|i: int| 0 <= i < count implies (#[trigger] keys[i] matches Some(id) && id
            == start_page + i) && (values[i] matches StoredValue::Bytes(bytes) && bytes@.len()
            == 4096) by {
            assert(keys[i] == Some((start_page + i) as u64));
        }
    }
    if keys.len() == count && values.len() == count && forall|i: int|
        0 <= i < count ==> (#[trigger] keys[i] matches Some(id) && id == start_page + i) && (
        values[i] matches StoredValue::Bytes(bytes) && bytes@.len() == 4096) {
        assert forall|i: int| 0 <= i < count implies #[trigger] keys[i] == Some(
            (start_page + i) as u64,
        ) && page_value((start_page + i) as u64, values[i]) is Ok by {
            let key = keys[i];
        }
    }
}

/// A read of the whole store gives every record back under its own key, and no
/// other: the pages are keyed by exactly the keys of the records, and a key that
/// occurs once has its record's bytes.
pub proof fn law_full_read_gives_every_record(
    keys: Seq<Option<u64>>,
    values: Seq<StoredValue>,
    n: nat,
    id: u64,
)
    requires
        n <= keys.len(),
        keys.len() == values.len(),
        forall|i: int| 0 <= i < keys.len() ==> #[trigger] record_fault(keys, values, i) is None,
    ensures
        records_map(keys, values, n).contains_key(id) <==> exists|i: int|
            0 <= i < n && #[trigger] keys[i] == Some(id),
        forall|i: int|
            0 <= i < n && #[trigger] keys[i] == Some(id) && (forall|j: int|
                i < j < n ==> #[trigger] keys[j] != Some(id)) ==> (
            values[i] matches StoredValue::Bytes(bytes) && bytes@ == records_map(
                keys,
                values,
                n,
            )[id]),
    decreases n,
{
    if n > 0 {
        let last = n - 1;
        law_full_read_gives_every_record(keys, values, last as nat, id);
        assert(record_fault(keys, values, last) is None);
        assert forall|i: int|
            0 <= i < n && #[trigger] keys[i] == Some(id) && (forall|j: int|
                i < j < n ==> #[trigger] keys[j] != Some(id)) implies (
        values[i] matches StoredValue::Bytes(bytes) && bytes@ == records_map(
            keys,
            values,
            n,
        )[id]) by {
            if i < last {
                assert(keys[last] != Some(id));
            }
        }
    }
}

/// A record of a full read is faulty exactly when its key is none or its value
/// is no full page.
pub proof fn law_faulty_records_are_told(keys: Seq<Option<u64>>, values: Seq<StoredValue>, i: int)
    requires
        0 <= i < keys.len() <= usize::MAX,
    ensures
        record_fault(keys, values, i) is None <==> keys[i] is Some && (
        values[i] matches StoredValue::Bytes(bytes) && bytes@.len() == 4096),
        keys[i] is None ==> record_fault(keys, values, i) == Some(
            IdbError::InvalidKey { position: i as usize },
        ),
{
}

/// A publication carries its next authority exactly when one and only one of
/// its pages is page 0, and that one is a full page.
pub proof fn law_publication_needs_one_page_zero(batch: Seq<(u64, Seq<u8>)>, page: Seq<u8>)
    ensures
        required_page_zero(batch) == Ok::<Seq<u8>, IdbError>(page) <==> page.len() == 4096
            && exists|i: int|
            {
                &&& 0 <= i < batch.len()
                &&& #[trigger] batch[i] == (0u64, page)
                &&& forall|j: int| 0 <= j < batch.len() && j != i ==> #[trigger] batch[j].0 != 0
            },
        required_page_zero(batch) == Err::<Seq<u8>, IdbError>(IdbError::MissingNextPageZero)
            <==> forall|i: int| 0 <= i < batch.len() ==> #[trigger] batch[i].0 != 0,
{
    lemma_next_page_zero(batch);
    if required_page_zero(batch) == Ok::<Seq<u8>, IdbError>(page) {
        let i = choose|i: int|
            {
                &&& 0 <= i < batch.len()
                &&& #[trigger] batch[i] == (0u64, page)
                &&& forall|j: int| 0 <= j < batch.len() && j != i ==> #[trigger] batch[j].0 != 0
            };
        assert(batch[i] == (0u64, page));
    }
    if exists|i: int|
        {
            &&& 0 <= i < batch.len()
            &&& #[trigger] batch[i] == (0u64, page)
            &&& forall|j: int| 0 <= j < batch.len() && j != i ==> #[trigger] batch[j].0 != 0
        } && page.len() == 4096 {
        let i = choose|i: int|
            {
                &&& 0 <= i < batch.len()
                &&& #[trigger] batch[i] == (0u64, page)
                &&& forall|j: int| 0 <= j < batch.len() && j != i ==> #[trigger] batch[j].0 != 0
            };
        lemma_single_page_zero(batch, i, page);
    }
    if forall|i: int| 0 <= i < batch.len() ==> #[trigger] batch[i].0 != 0 {
        lemma_no_page_zero(batch);
    }
}

proof fn lemma_next_page_zero(batch: Seq<(u64, Seq<u8>)>)
    ensures
        next_page_zero(batch) matches Ok(Some(page)) ==> page.len() == 4096 && exists|i: int|
            {
                &&& 0 <= i < batch.len()
                &&& #[trigger] batch[i] == (0u64, page)
                &&& forall|j: int| 0 <= j < batch.len() && j != i ==> #[trigger] batch[j].0 != 0
            },
        next_page_zero(batch) matches Ok(None) ==> forall|i: int|
            0 <= i < batch.len() ==> #[trigger] batch[i].0 != 0,
        next_page_zero(batch) != Err::<Option<Seq<u8>>, IdbError>(IdbError::MissingNextPageZero),
    decreases batch.len(),
{
    if batch.len() > 0 {
        let shorter = batch.drop_last();
        lemma_next_page_zero(shorter);
        assert(forall|i: int| 0 <= i < shorter.len() ==> #[trigger] shorter[i] == batch[i]);
        let last = batch.len() - 1;
        assert(batch[last] == batch.last());
        if let Ok(None) = next_page_zero(shorter) {
            assert forall|i: int| 0 <= i < last implies #[trigger] batch[i].0 != 0 by {
                assert(shorter[i].0 != 0);
            }
            if let Ok(Some(page)) = next_page_zero(batch) {
                assert(batch[last] == (0u64, page));
            }
        }
        if let Ok(Some(page)) = next_page_zero(shorter) {
            let i = choose|i: int|
                {
                    &&& 0 <= i < shorter.len()
                    &&& #[trigger] shorter[i] == (0u64, page)
                    &&& forall|j: int|
                        0 <= j < shorter.len() && j != i ==> #[trigger] shorter[j].0 != 0
                };
            if let Ok(Some(found)) = next_page_zero(batch) {
                assert(batch[i] == (0u64, found));
                assert forall|j: int| 0 <= j < batch.len() && j != i implies #[trigger] batch[j].0
                    != 0 by {
                    if j < last {
                        assert(shorter[j].0 != 0);
                    }
                }
            }
        }
    }
}

proof fn lemma_no_page_zero(batch: Seq<(u64, Seq<u8>)>)
    requires
        forall|i: int| 0 <= i < batch.len() ==> #[trigger] batch[i].0 != 0,
    ensures
        next_page_zero(batch) == Ok::<Option<Seq<u8>>, IdbError>(None),
    decreases batch.len(),
{
    if batch.len() > 0 {
        let shorter = batch.drop_last();
        assert forall|i: int| 0 <= i < shorter.len() implies #[trigger] shorter[i].0 != 0 by {
            assert(batch[i].0 != 0);
        }
        lemma_no_page_zero(shorter);
        assert(batch[batch.len() - 1].0 != 0);
    }
}

proof fn lemma_single_page_zero(batch: Seq<(u64, Seq<u8>)>, i: int, page: Seq<u8>)
    requires
        0 <= i < batch.len(),
        batch[i] == (0u64, page),
        page.len() == 4096,
        forall|j: int| 0 <= j < batch.len() && j != i ==> #[trigger] batch[j].0 != 0,
    ensures
        next_page_zero(batch) == Ok::<Option<Seq<u8>>, IdbError>(Some(page)),
    decreases batch.len(),
{
    let shorter = batch.drop_last();
    let last = batch.len() - 1;
    if i == last {
        assert forall|j: int| 0 <= j < shorter.len() implies #[trigger] shorter[j].0 != 0 by {
            assert(batch[j].0 != 0);
        }
        lemma_no_page_zero(shorter);
    } else {
        assert(shorter[i] == batch[i]);
        assert forall|j: int| 0 <= j < shorter.len() && j != i implies #[trigger] shorter[j].0
            != 0 by {
            assert(batch[j].0 != 0);
        }
        lemma_single_page_zero(shorter, i, page);
        assert(batch[last].0 != 0);
    }
}

/// An optional page is there with its bytes, or not at all.
pub proof fn law_optional_page_keeps_its_bytes(page: Vec<u8>)
    ensures
        authority_bytes(Some(page)) == Some(page@),
        authority_bytes(None) is None,
{
}

} // verus!
