//! The page geometry of a graph image and the part of its header page that the
//! browser layer reads.

use crate::text::{decimal, push_decimal};
use vstd::arithmetic::div_mod::lemma_div_denominator;
use vstd::arithmetic::power::{lemma_pow0, lemma_pow1, lemma_pow_adds, lemma_pow_positive, pow};
use vstd::prelude::*;
use vstd::string::*;

verus! {

/// Bytes in one page of a graph image.
pub const PAGE_SIZE: usize = 4096;

/// Bytes of page 0 that belong to the fixed header.
pub const HEADER_SIZE: usize = 84;

/// The four bytes `MGRF`, read as a little-endian number.
pub const MAGIC: u32 = 0x4652_474D;

/// Oldest header layout that carries a header extension.
pub const LEGACY_HEADER_EXTENSION_FILE_FORMAT_VERSION: u32 = 10;

/// First format whose base pages are covered by per-page integrity data.
pub const INTEGRITY_FORMAT_VERSION: u32 = 11;

/// Format written by default.
pub const FORMAT_VERSION: u32 = 12;

/// Newest readable format: the default format plus a projection catalog.
pub const MAX_READABLE_FORMAT_VERSION: u32 = 13;

/// The value of `width` little-endian bytes starting at `at`.
pub open spec fn little_endian(bytes: Seq<u8>, at: int, width: nat) -> nat
    decreases width,
{
    if width == 0 {
        0
    } else {
        bytes[at] as nat + 256 * little_endian(bytes, at + 1, (width - 1) as nat)
    }
}

/// Why a header page is not usable.
#[derive(Clone, Copy, Debug, PartialEq, Eq, Structural)]
pub enum StorageError {
    /// Fewer bytes than one fixed header.
    HeaderTooShort { len: usize },
    /// The image does not start with the expected magic bytes.
    InvalidMagic,
    /// The format version is outside the readable range.
    UnsupportedVersion { version: u32 },
}

impl StorageError {
    /// The text reported for this error.
    pub open spec fn text(self) -> Seq<char> {
        match self {
            StorageError::HeaderTooShort { len } => "Header is too short: "@ + decimal(len as nat)
                + " bytes"@,
            StorageError::InvalidMagic => "Invalid magic number"@,
            StorageError::UnsupportedVersion { version } => "Unsupported format version: "@
                + decimal(version as nat),
        }
    }

    /// Render this error for a caller.
    pub fn message(&self) -> (text: String)
        ensures
            text@ == self.text(),
    {
        let mut out = String::new();
        match self {
            StorageError::HeaderTooShort { len } => {
                out.append("Header is too short: ");
                push_decimal(&mut out, *len as u64);
                out.append(" bytes");
            },
            StorageError::InvalidMagic => out.append("Invalid magic number"),
            StorageError::UnsupportedVersion { version } => {
                out.append("Unsupported format version: ");
                push_decimal(&mut out, *version as u64);
            },
        }
        assert(out@ =~= self.text());
        out
    }
}

/// The header fields that paging, import and export decisions depend on.
#[derive(Clone, Copy, Debug, PartialEq, Eq, Structural)]
pub struct FileHeader {
    /// First four bytes, little endian.
    pub magic: u32,
    /// Format version of the image.
    pub version: u32,
    /// Number of pages that the image publishes.
    pub page_count: u64,
}

/// The header that `page` starts with.
pub open spec fn header_of(page: Seq<u8>) -> FileHeader {
    FileHeader {
        magic: little_endian(page, 0, 4) as u32,
        version: little_endian(page, 4, 4) as u32,
        page_count: little_endian(page, 8, 8) as u64,
    }
}

/// The error, if any, that reading a header off `page` gives.
pub open spec fn header_read_fault(page: Seq<u8>) -> Option<StorageError> {
    if page.len() < HEADER_SIZE {
        Some(StorageError::HeaderTooShort { len: page.len() as usize })
    } else {
        None
    }
}

/// The error, if any, that a header itself carries.
pub open spec fn header_fault(header: FileHeader) -> Option<StorageError> {
    if header.magic != MAGIC {
        Some(StorageError::InvalidMagic)
    } else if header.version < 1 || header.version > MAX_READABLE_FORMAT_VERSION {
        Some(StorageError::UnsupportedVersion { version: header.version })
    } else {
        None
    }
}

/// The bytes from `at` on are the little-endian encoding of `n` in `width`
/// bytes: the lowest byte first.
pub open spec fn encodes(bytes: Seq<u8>, at: int, width: nat, n: int) -> bool {
    &&& 0 <= n < pow(256, width)
    &&& forall|k: int|
        0 <= k < width ==> (#[trigger] bytes[at + k]) as int == n / pow(256, k as nat) % 256
}

/// Reading little-endian bytes undoes writing them: whatever number the bytes
/// encode is the one that is read.
pub proof fn law_little_endian_undoes_encoding(bytes: Seq<u8>, at: int, width: nat, n: int)
    requires
        encodes(bytes, at, width, n),
    ensures
        little_endian(bytes, at, width) == n,
    decreases width,
{
    lemma_pow0(256);
    if width > 0 {
        let rest = n / 256;
        lemma_pow1(256);
        lemma_pow_adds(256, 1, (width - 1) as nat);
        assert(bytes[at + 0] as int == n / pow(256, 0) % 256);
        assert(n == 256 * rest + n % 256 && 0 <= n % 256 < 256);
        assert(0 <= rest < pow(256, (width - 1) as nat)) by (nonlinear_arith)
            requires
                0 <= n < pow(256, width),
                pow(256, width) == 256 * pow(256, (width - 1) as nat),
                n == 256 * rest + n % 256,
                0 <= n % 256 < 256,
        ;
        assert forall|k: int| 0 <= k < width - 1 implies (#[trigger] bytes[at + 1 + k]) as int
            == rest / pow(256, k as nat) % 256 by {
            assert(bytes[at + (k + 1)] as int == n / pow(256, (k + 1) as nat) % 256);
            lemma_pow_adds(256, 1, k as nat);
            lemma_pow_positive(256, k as nat);
            lemma_div_denominator(n, 256, pow(256, k as nat));
        }
        law_little_endian_undoes_encoding(bytes, at + 1, (width - 1) as nat, rest);
    }
}

/// Reading a header undoes writing it: a page that starts with the encoded
/// magic, version and page count is read as exactly these.
pub proof fn law_header_is_read_as_written(page: Seq<u8>, header: FileHeader)
    requires
        page.len() >= HEADER_SIZE,
        encodes(page, 0, 4, header.magic as int),
        encodes(page, 4, 4, header.version as int),
        encodes(page, 8, 8, header.page_count as int),
    ensures
        header_of(page) == header,
        header_read_fault(page) is None,
{
    law_little_endian_undoes_encoding(page, 0, 4, header.magic as int);
    law_little_endian_undoes_encoding(page, 4, 4, header.version as int);
    law_little_endian_undoes_encoding(page, 8, 8, header.page_count as int);
}

/// A header is usable exactly when it carries the magic number, which is that
/// of the letters `MGRF`, and a version from the first to the newest readable
/// one; a page is long enough for a header exactly when the header fits.
pub proof fn law_readable_headers_are_accepted(page: Seq<u8>, header: FileHeader)
    ensures
        header_fault(header) is None <==> header.magic == 'M' as int + 0x100 * ('G' as int)
            + 0x1_0000 * ('R' as int) + 0x100_0000 * ('F' as int) && 1 <= header.version <= 13,
        header_fault(header) == Some(StorageError::InvalidMagic) <==> header.magic != MAGIC,
        header.magic == MAGIC && header_fault(header) is Some ==> header_fault(header) == Some(
            StorageError::UnsupportedVersion { version: header.version },
        ),
        header_read_fault(page) is None <==> page.len() >= 84,
{
}

/// Whether an image of this format can be opened page by page: the default
/// format, or the projection-catalog format on top of it.
pub open spec fn paged_format(version: u32) -> bool {
    version == FORMAT_VERSION || version == MAX_READABLE_FORMAT_VERSION
}

/// Decide [`paged_format`].
pub fn is_paged_format(version: u32) -> (yes: bool)
    ensures
        yes == paged_format(version),
{
    version == FORMAT_VERSION || version == MAX_READABLE_FORMAT_VERSION
}

fn read_u32(bytes: &[u8], at: usize) -> (value: u32)
    requires
        at + 4 <= HEADER_SIZE <= bytes@.len(),
    ensures
        value == little_endian(bytes@, at as int, 4),
{
    proof {
        reveal_with_fuel(little_endian, 5);
    }
    let b3: u32 = bytes[at + 3] as u32;
    let b2: u32 = bytes[at + 2] as u32;
    let b1: u32 = bytes[at + 1] as u32;
    let b0: u32 = bytes[at] as u32;
    b0 + 256 * (b1 + 256 * (b2 + 256 * b3))
}

fn read_u64(bytes: &[u8], at: usize) -> (value: u64)
    requires
        at + 8 <= HEADER_SIZE <= bytes@.len(),
    ensures
        value == little_endian(bytes@, at as int, 8),
{
    let low: u64 = read_u32(bytes, at) as u64;
    let high: u64 = read_u32(bytes, at + 4) as u64;
    proof {
        reveal_with_fuel(little_endian, 9);
    }
    low + 0x1_0000_0000 * high
}

impl FileHeader {
    /// Read the header fields off the start of page 0.
    pub fn from_bytes(bytes: &[u8]) -> (result: Result<FileHeader, StorageError>)
        ensures
            result == match header_read_fault(bytes@) {
                Some(fault) => Err::<FileHeader, StorageError>(fault),
                None => Ok(header_of(bytes@)),
            },
    {
        if bytes.len() < HEADER_SIZE {
            return Err(StorageError::HeaderTooShort { len: bytes.len() });
        }
        Ok(
            FileHeader {
                magic: read_u32(bytes, 0),
                version: read_u32(bytes, 4),
                page_count: read_u64(bytes, 8),
            },
        )
    }

    /// Accept a header that carries the magic bytes and a readable version.
    pub fn validate(&self) -> (result: Result<(), StorageError>)
        ensures
            result == match header_fault(*self) {
                Some(fault) => Err::<(), StorageError>(fault),
                None => Ok(()),
            },
    {
        if self.magic != MAGIC {
            return Err(StorageError::InvalidMagic);
        }
        if self.version < 1 || self.version > MAX_READABLE_FORMAT_VERSION {
            return Err(StorageError::UnsupportedVersion { version: self.version });
        }
        Ok(())
    }
}

} // verus!
