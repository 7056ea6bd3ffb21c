//! The archive layer: the container formats a package can arrive in, the
//! uniform entry record that every container adapter produces, and the
//! errors extraction can surface.

use vstd::prelude::*;

verus! {

/// A failure while pulling entries out of an archive: a failed read of one
/// entry's bytes, or a malformed container.
#[derive(Copy, Clone, Debug, PartialEq, Eq, Structural)]
pub enum ExtractionError {
    IOError,
    ZipError,
}

/// The container format of a package archive, determined by the file
/// extension of its retrieval path.
#[derive(Copy, Clone, Debug, PartialEq, Eq, Structural)]
pub enum ArchiveType {
    Zip,
    TarGz,
    TarBz,
    Exe,
}

impl ArchiveType {
    /// The container format for a file extension: `egg`, `zip` and `whl`
    /// arrive as zip archives, `exe` as a zip-backed installer, `gz` and
    /// `bz2` as compressed tar archives.  Any other extension is unknown.
    pub fn from_extension(ext: &Vec<u8>) -> (r: Option<ArchiveType>)
        ensures
            r == Self::spec_from_extension(ext@),
    {
        proof {
            reveal_strlit("egg");
            reveal_strlit("zip");
            reveal_strlit("whl");
            reveal_strlit("exe");
            reveal_strlit("gz");
            reveal_strlit("bz2");
        }
        let egg = crate::text::ascii_bytes("egg");
        let zip = crate::text::ascii_bytes("zip");
        let whl = crate::text::ascii_bytes("whl");
        let exe = crate::text::ascii_bytes("exe");
        let gz = crate::text::ascii_bytes("gz");
        let bz2 = crate::text::ascii_bytes("bz2");
        if crate::text::bytes_eq(ext, &egg) || crate::text::bytes_eq(ext, &zip)
            || crate::text::bytes_eq(ext, &whl) {
            Some(ArchiveType::Zip)
        } else if crate::text::bytes_eq(ext, &exe) {
            Some(ArchiveType::Exe)
        } else if crate::text::bytes_eq(ext, &gz) {
            Some(ArchiveType::TarGz)
        } else if crate::text::bytes_eq(ext, &bz2) {
            Some(ArchiveType::TarBz)
        } else {
            None
        }
    }

    /// The extension mapping as a mathematical function.
    pub open spec fn spec_from_extension(ext: Seq<u8>) -> Option<ArchiveType> {
        if ext == crate::text::ascii_of("egg") || ext == crate::text::ascii_of("zip") || ext
            == crate::text::ascii_of("whl") {
            Some(ArchiveType::Zip)
        } else if ext == crate::text::ascii_of("exe") {
            Some(ArchiveType::Exe)
        } else if ext == crate::text::ascii_of("gz") {
            Some(ArchiveType::TarGz)
        } else if ext == crate::text::ascii_of("bz2") {
            Some(ArchiveType::TarBz)
        } else {
            None
        }
    }
}

/// The mathematical view of one kept file.
#[verifier::ext_equal]
pub ghost struct ArchiveItemModel {
    pub path: Seq<u8>,
    pub size: u64,
    pub data: Seq<u8>,
}

/// One kept file handed to the fast-import writer: its destination path and
/// its raw bytes.
pub struct ArchiveItem {
    pub path: Vec<u8>,
    pub size: u64,
    pub data: Vec<u8>,
}

impl View for ArchiveItem {
    type V = ArchiveItemModel;

    open spec fn view(&self) -> ArchiveItemModel {
        ArchiveItemModel { path: self.path@, size: self.size, data: self.data@ }
    }
}

impl DeepView for ArchiveItem {
    type V = ArchiveItemModel;

    open spec fn deep_view(&self) -> ArchiveItemModel {
        self.view()
    }
}

/// The mathematical view of one raw archive entry, before classification.
#[verifier::ext_equal]
pub ghost struct RawEntryModel {
    pub is_file: bool,
    pub path: Seq<u8>,
    pub size: u64,
    pub data: Seq<u8>,
}

/// One entry pulled out of an archive container: whether it is a regular
/// file, its path inside the archive, its declared size, and its bytes.
pub struct RawEntry {
    pub is_file: bool,
    pub path: Vec<u8>,
    pub size: u64,
    pub data: Vec<u8>,
}

impl View for RawEntry {
    type V = RawEntryModel;

    open spec fn view(&self) -> RawEntryModel {
        RawEntryModel { is_file: self.is_file, path: self.path@, size: self.size, data: self.data@ }
    }
}

impl DeepView for RawEntry {
    type V = RawEntryModel;

    open spec fn deep_view(&self) -> RawEntryModel {
        self.view()
    }
}

} // verus!
