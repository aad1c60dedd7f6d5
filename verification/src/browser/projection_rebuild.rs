//! Rebuilding the persisted current-attribute projections.

use crate::json::{
    json_text, new_object, no_fields, object_text, put_number, put_signed, put_text, put_truth,
    JsonField,
};
use crate::text::{decimal, push_decimal};
use vstd::prelude::*;
use vstd::string::*;

verus! {

/// Why a rebuild was refused.
#[derive(Clone, Copy, Debug, PartialEq, Eq, Structural)]
pub enum RebuildError {
    /// The transaction clock does not fit the valid-time range.
    FloorOverflow,
    /// The database is not persistent.
    NotPersistent,
    /// The total size of the images overflows.
    ByteCountOverflow,
    /// The images take more than the maintenance budget.
    OverBudget { bytes: u64, budget: u64 },
    /// The total number of rows overflows.
    RowCountOverflow,
}

impl RebuildError {
    /// The text reported for this error.
    pub open spec fn text(self) -> Seq<char> {
        match self {
            RebuildError::FloorOverflow => "current projection valid-time floor exceeds i64"@,
            RebuildError::NotPersistent =>
                "current projection rebuild requires a persistent maintenance ledger"@,
            RebuildError::ByteCountOverflow => "current projection byte count overflow"@,
            RebuildError::OverBudget { bytes, budget } => "current projection images require "@
                + decimal(bytes as nat) + " bytes, exceeding the "@ + decimal(budget as nat)
                + "-byte maintenance budget"@,
            RebuildError::RowCountOverflow => "current projection row count overflow"@,
        }
    }

    /// Render this error for a caller.
    pub fn message(&self) -> (text: String)
        ensures
            text@ == self.text(),
    {
        let mut out = String::new();
        match self {
            RebuildError::FloorOverflow => out.append(
                "current projection valid-time floor exceeds i64",
            ),
            RebuildError::NotPersistent => out.append(
                "current projection rebuild requires a persistent maintenance ledger",
            ),
            RebuildError::ByteCountOverflow => out.append("current projection byte count overflow"),
            RebuildError::OverBudget { bytes, budget } => {
                out.append("current projection images require ");
                push_decimal(&mut out, *bytes);
                out.append(" bytes, exceeding the ");
                push_decimal(&mut out, *budget);
                out.append("-byte maintenance budget");
            },
            RebuildError::RowCountOverflow => out.append("current projection row count overflow"),
        }
        assert(out@ =~= self.text());
        out
    }
}

/// The valid time from which the projections are kept.
pub fn valid_time_floor(now: u64) -> (result: Result<i64, RebuildError>)
    ensures
        result == if now <= i64::MAX {
            Ok::<i64, RebuildError>(now as i64)
        } else {
            Err(RebuildError::FloorOverflow)
        },
{
    if now > 0x7FFF_FFFF_FFFF_FFFF {
        return Err(RebuildError::FloorOverflow);
    }
    Ok(now as i64)
}

/// Accept a rebuild of a persistent database.
pub fn require_persistent(persistent: bool) -> (result: Result<(), RebuildError>)
    ensures
        result == if persistent {
            Ok::<(), RebuildError>(())
        } else {
            Err(RebuildError::NotPersistent)
        },
{
    if !persistent {
        return Err(RebuildError::NotPersistent);
    }
    Ok(())
}

/// The size of one encoded projection image.
#[derive(Clone, Copy, Debug, PartialEq, Eq, Structural)]
pub struct ImageSize {
    /// Bytes, padded to whole pages.
    pub padded_bytes: u64,
    /// Rows.
    pub row_count: u64,
}

/// The bytes of the first `n` images.
pub open spec fn images_bytes(images: Seq<ImageSize>, n: nat) -> nat
    decreases n,
{
    if n == 0 {
        0
    } else {
        images_bytes(images, (n - 1) as nat) + images[n - 1].padded_bytes as nat
    }
}

/// The rows of the first `n` images.
pub open spec fn images_rows(images: Seq<ImageSize>, n: nat) -> nat
    decreases n,
{
    if n == 0 {
        0
    } else {
        images_rows(images, (n - 1) as nat) + images[n - 1].row_count as nat
    }
}

/// The error, if any, that the image at place `i` gives, once all images before
/// it have been taken in.
pub open spec fn image_fault(images: Seq<ImageSize>, budget: u64, i: int) -> Option<RebuildError> {
    let bytes = images_bytes(images, (i + 1) as nat);
    if bytes > u64::MAX {
        Some(RebuildError::ByteCountOverflow)
    } else if bytes > budget {
        Some(RebuildError::OverBudget { bytes: bytes as u64, budget })
    } else if images_rows(images, (i + 1) as nat) > u64::MAX {
        Some(RebuildError::RowCountOverflow)
    } else {
        None
    }
}

/// The sizes taken in so far.
#[derive(Clone, Copy, Debug, PartialEq, Eq, Structural)]
pub struct ProjectionTotals {
    /// Bytes of all images.
    pub bytes: u64,
    /// Rows of all images.
    pub rows: u64,
}

impl ProjectionTotals {
    /// Nothing yet.
    pub fn new() -> (totals: Self)
        ensures
            totals == (ProjectionTotals { bytes: 0, rows: 0 }),
    {
        ProjectionTotals { bytes: 0, rows: 0 }
    }

    /// Take in one image, as long as the budget lasts.
    pub fn add_image(&mut self, image: ImageSize, budget: u64) -> (result: Result<
        (),
        RebuildError,
    >)
        ensures
            result == if old(self).bytes + image.padded_bytes > u64::MAX {
                Err::<(), RebuildError>(RebuildError::ByteCountOverflow)
            } else if old(self).bytes + image.padded_bytes > budget {
                Err(
                    RebuildError::OverBudget {
                        bytes: (old(self).bytes + image.padded_bytes) as u64,
                        budget,
                    },
                )
            } else if old(self).rows + image.row_count > u64::MAX {
                Err(RebuildError::RowCountOverflow)
            } else {
                Ok(())
            },
            result is Ok ==> *final(self) == (ProjectionTotals {
                bytes: (old(self).bytes + image.padded_bytes) as u64,
                rows: (old(self).rows + image.row_count) as u64,
            }),
            result is Err ==> *final(self) == *old(self),
    {
        let bytes: u64 = match self.bytes.checked_add(image.padded_bytes) {
            Some(bytes) => bytes,
            None => return Err(RebuildError::ByteCountOverflow),
        };
        if bytes > budget {
            return Err(RebuildError::OverBudget { bytes, budget });
        }
        let rows: u64 = match self.rows.checked_add(image.row_count) {
            Some(rows) => rows,
            None => return Err(RebuildError::RowCountOverflow),
        };
        self.bytes = bytes;
        self.rows = rows;
        Ok(())
    }
}

/// Take in every image of a rebuild. The first that does not fit stops it.
pub fn admit_images(images: &Vec<ImageSize>, budget: u64) -> (result: Result<
    ProjectionTotals,
    RebuildError,
>)
    ensures
        match result {
            Ok(totals) => {
                &&& forall|i: int|
                    0 <= i < images@.len() ==> #[trigger] image_fault(images@, budget, i) is None
                &&& totals.bytes == images_bytes(images@, images@.len())
                &&& totals.rows == images_rows(images@, images@.len())
            },
            Err(fault) => exists|i: int|
                0 <= i < images@.len() && #[trigger] image_fault(images@, budget, i) == Some(fault)
                    && forall|j: int|
                    0 <= j < i ==> #[trigger] image_fault(images@, budget, j) is None,
        },
{
    let mut totals = ProjectionTotals::new();
    let mut i: usize = 0;
    while i < images.len()
        invariant
            i <= images.len(),
            totals.bytes == images_bytes(images@, i as nat),
            totals.rows == images_rows(images@, i as nat),
            forall|j: int| 0 <= j < i ==> #[trigger] image_fault(images@, budget, j) is None,
        decreases images.len() - i,
    {
        assert(images_bytes(images@, (i + 1) as nat) == images_bytes(images@, i as nat)
            + images@[i as int].padded_bytes);
        assert(images_rows(images@, (i + 1) as nat) == images_rows(images@, i as nat)
            + images@[i as int].row_count);
        if let Err(fault) = totals.add_image(images[i], budget) {
            assert(image_fault(images@, budget, i as int) == Some(fault));
            return Err(fault);
        }
        assert(image_fault(images@, budget, i as int) is None);
        i += 1;
    }
    Ok(totals)
}

/// An admitted rebuild keeps its budget.
pub proof fn law_rebuild_keeps_budget(images: Seq<ImageSize>, budget: u64)
    requires
        forall|i: int| 0 <= i < images.len() ==> #[trigger] image_fault(images, budget, i) is None,
    ensures
        images_bytes(images, images.len()) <= budget,
{
    if images.len() > 0 {
        assert(image_fault(images, budget, images.len() - 1) is None);
    }
}

/// What a rebuild published.
#[derive(Clone, Copy, Debug, PartialEq, Eq, Structural)]
pub struct RebuildReceipt {
    /// Generation of the published catalog.
    pub generation: u64,
    /// Base generation of the ledger.
    pub base_generation: u64,
    /// Manifest generation of the ledger.
    pub manifest_generation: u64,
    /// Transactions of the ledger.
    pub tx_count: u64,
    /// Valid time from which the projections are kept.
    pub valid_time_floor: i64,
    /// Projected attributes.
    pub attribute_count: usize,
    /// Rows of all images.
    pub row_count: u64,
    /// Bytes of all images.
    pub projection_bytes: u64,
    /// Published pages before.
    pub before_pages: u64,
    /// Published pages after.
    pub after_pages: u64,
    /// Whether earlier projection pages were reused.
    pub arena_reused: bool,
}

/// The fields of a rebuild receipt.
pub open spec fn rebuild_fields(receipt: RebuildReceipt) -> Map<Seq<char>, JsonField> {
    no_fields().insert("checkpoint"@, JsonField::Text("noop"@)).insert(
        "generation"@,
        JsonField::Number(receipt.generation as int),
    ).insert("base_generation"@, JsonField::Number(receipt.base_generation as int)).insert(
        "manifest_generation"@,
        JsonField::Number(receipt.manifest_generation as int),
    ).insert("tx_count"@, JsonField::Number(receipt.tx_count as int)).insert(
        "valid_time_floor"@,
        JsonField::Number(receipt.valid_time_floor as int),
    ).insert("attribute_count"@, JsonField::Number(receipt.attribute_count as int)).insert(
        "row_count"@,
        JsonField::Number(receipt.row_count as int),
    ).insert("projection_bytes"@, JsonField::Number(receipt.projection_bytes as int)).insert(
        "before_pages"@,
        JsonField::Number(receipt.before_pages as int),
    ).insert("after_pages"@, JsonField::Number(receipt.after_pages as int)).insert(
        "arena_reused"@,
        JsonField::Truth(receipt.arena_reused),
    )
}

/// Render a rebuild receipt.
pub fn rebuild_receipt(receipt: RebuildReceipt) -> (text: String)
    ensures
        text@ == json_text(rebuild_fields(receipt)),
{
    let mut object = new_object();
    put_text(&mut object, "checkpoint", "noop");
    put_number(&mut object, "generation", receipt.generation);
    put_number(&mut object, "base_generation", receipt.base_generation);
    put_number(&mut object, "manifest_generation", receipt.manifest_generation);
    put_number(&mut object, "tx_count", receipt.tx_count);
    put_signed(&mut object, "valid_time_floor", receipt.valid_time_floor);
    put_number(&mut object, "attribute_count", receipt.attribute_count as u64);
    put_number(&mut object, "row_count", receipt.row_count);
    put_number(&mut object, "projection_bytes", receipt.projection_bytes);
    put_number(&mut object, "before_pages", receipt.before_pages);
    put_number(&mut object, "after_pages", receipt.after_pages);
    put_truth(&mut object, "arena_reused", receipt.arena_reused);
    object_text(object)
}

/// Images take as many bytes and hold as many rows as each of them does.
pub proof fn law_totals_count_every_image(images: Seq<ImageSize>, image: ImageSize)
    ensures
        images_bytes(Seq::empty(), 0) == 0,
        images_rows(Seq::empty(), 0) == 0,
        images_bytes(images.push(image), images.len() + 1) == images_bytes(images, images.len())
            + image.padded_bytes,
        images_rows(images.push(image), images.len() + 1) == images_rows(images, images.len())
            + image.row_count,
{
    lemma_totals_of_prefix(images, image, images.len());
}

proof fn lemma_totals_of_prefix(images: Seq<ImageSize>, image: ImageSize, n: nat)
    requires
        n <= images.len(),
    ensures
        images_bytes(images.push(image), n) == images_bytes(images, n),
        images_rows(images.push(image), n) == images_rows(images, n),
    decreases n,
{
    if n > 0 {
        lemma_totals_of_prefix(images, image, (n - 1) as nat);
    }
}

proof fn lemma_totals_grow(images: Seq<ImageSize>, n: nat, m: nat)
    requires
        n <= m,
    ensures
        images_bytes(images, n) <= images_bytes(images, m),
        images_rows(images, n) <= images_rows(images, m),
    decreases m - n,
{
    if n < m {
        lemma_totals_grow(images, n, (m - 1) as nat);
    }
}

/// A rebuild is admitted exactly when all of its images together keep the budget
/// and their rows can be counted.
pub proof fn law_rebuild_is_admitted_within_budget(images: Seq<ImageSize>, budget: u64)
    ensures
        (forall|i: int|
            0 <= i < images.len() ==> #[trigger] image_fault(images, budget, i) is None)
            <==> images_bytes(images, images.len()) <= budget && images_rows(images, images.len())
            <= u64::MAX,
        forall|i: int|
            0 <= i < images.len() ==> (#[trigger] image_fault(images, budget, i) matches Some(
                RebuildError::OverBudget { bytes, budget: allowed },
            ) ==> bytes > budget && allowed == budget && bytes == images_bytes(
                images,
                (i + 1) as nat,
            )),
{
    if forall|i: int| 0 <= i < images.len() ==> #[trigger] image_fault(images, budget, i) is None {
        if images.len() > 0 {
            assert(image_fault(images, budget, images.len() - 1) is None);
        }
    }
    if images_bytes(images, images.len()) <= budget && images_rows(images, images.len())
        <= u64::MAX {
        assert forall|i: int| 0 <= i < images.len() implies #[trigger] image_fault(
            images,
            budget,
            i,
        ) is None by {
            lemma_totals_grow(images, (i + 1) as nat, images.len());
        }
    }
}

} // verus!
