//! Archive inspection: which container format a blob is, judged by its
//! leading bytes alone.

use vstd::prelude::*;

verus! {

/// The container formats the store can unpack, and the blob that is none.
#[derive(Clone, Copy, Debug, PartialEq, Eq, Structural)]
pub enum ArchiveKind {
    /// A tar stream compressed with gzip.
    GzipTar,
    /// A tar stream compressed with xz.
    XzTar,
    /// A zip file.
    Zip,
    /// Anything else: stored as a single executable.
    Opaque,
}

/// The bytes a gzip stream starts with.
pub open spec fn spec_gzip_magic() -> Seq<u8> {
    seq![0x1fu8, 0x8bu8]
}

/// The bytes an xz stream starts with.
pub open spec fn spec_xz_magic() -> Seq<u8> {
    seq![0xfdu8, 0x37u8, 0x7au8, 0x58u8, 0x5au8, 0x00u8]
}

/// The bytes a zip file starts with.
pub open spec fn spec_zip_magic() -> Seq<u8> {
    seq![0x50u8, 0x4bu8, 0x03u8, 0x04u8]
}

/// Whether `bytes` begins with `magic`.
pub open spec fn spec_starts_with(bytes: Seq<u8>, magic: Seq<u8>) -> bool {
    magic.len() <= bytes.len() && bytes.subrange(0, magic.len() as int) == magic
}

/// The format of a blob: the first signature that its leading bytes match,
/// tried in the order gzip, xz, zip.
pub open spec fn spec_sniff(bytes: Seq<u8>) -> ArchiveKind {
    if spec_starts_with(bytes, spec_gzip_magic()) {
        ArchiveKind::GzipTar
    } else if spec_starts_with(bytes, spec_xz_magic()) {
        ArchiveKind::XzTar
    } else if spec_starts_with(bytes, spec_zip_magic()) {
        ArchiveKind::Zip
    } else {
        ArchiveKind::Opaque
    }
}

/// Classifies a blob by its signature.
pub fn sniff(bytes: &[u8]) -> (kind: ArchiveKind)
    ensures
        kind == spec_sniff(bytes@),
{
    let n = bytes.len();
    if n >= 2 && bytes[0] == 0x1f && bytes[1] == 0x8b {
        assert(bytes@.subrange(0, 2) =~= spec_gzip_magic());
        return ArchiveKind::GzipTar;
    }
    assert(!spec_starts_with(bytes@, spec_gzip_magic())) by {
        if spec_starts_with(bytes@, spec_gzip_magic()) {
            let head = bytes@.subrange(0, 2);
            assert(head[0] == 0x1f && head[1] == 0x8b);
        }
    }
    if n >= 6 && bytes[0] == 0xfd && bytes[1] == 0x37 && bytes[2] == 0x7a && bytes[3] == 0x58
        && bytes[4] == 0x5a && bytes[5] == 0x00 {
        assert(bytes@.subrange(0, 6) =~= spec_xz_magic());
        return ArchiveKind::XzTar;
    }
    assert(!spec_starts_with(bytes@, spec_xz_magic())) by {
        if spec_starts_with(bytes@, spec_xz_magic()) {
            let head = bytes@.subrange(0, 6);
            assert(head[0] == 0xfd && head[1] == 0x37 && head[2] == 0x7a && head[3] == 0x58
                && head[4] == 0x5a && head[5] == 0x00);
        }
    }
    if n >= 4 && bytes[0] == 0x50 && bytes[1] == 0x4b && bytes[2] == 0x03 && bytes[3] == 0x04 {
        assert(bytes@.subrange(0, 4) =~= spec_zip_magic());
        return ArchiveKind::Zip;
    }
    assert(!spec_starts_with(bytes@, spec_zip_magic())) by {
        if spec_starts_with(bytes@, spec_zip_magic()) {
            let head = bytes@.subrange(0, 4);
            assert(head[0] == 0x50 && head[1] == 0x4b && head[2] == 0x03 && head[3] == 0x04);
        }
    }
    ArchiveKind::Opaque
}

impl ArchiveKind {
    /// Whether the blob has to be unpacked rather than written as it is.
    pub fn is_archive(&self) -> (archive: bool)
        ensures
            archive == (*self != ArchiveKind::Opaque),
    {
        match self {
            ArchiveKind::Opaque => false,
            _ => true,
        }
    }
}

} // verus!
