//! The per-entry outcome record that extraction produces for analytics and
//! reporting.

use vstd::prelude::*;

use crate::content::SkipReason;

verus! {

/// The mathematical view of one outcome record.
#[verifier::ext_equal]
pub ghost struct IndexItemModel {
    pub path: Seq<u8>,
    pub archive_path: Seq<u8>,
    pub size: u64,
    pub hash: Seq<u8>,
    pub skip_reason: Option<SkipReason>,
    pub lines: Option<nat>,
}

/// One archive entry's outcome: its normalized destination path, the
/// original path inside the archive, the declared size, the content hash,
/// why it was skipped (absent if kept), and its line count (absent when the
/// content was never scanned as text).
pub struct IndexItem {
    pub path: Vec<u8>,
    pub archive_path: Vec<u8>,
    pub size: u64,
    pub hash: Vec<u8>,
    pub skip_reason: Option<SkipReason>,
    pub lines: Option<usize>,
}

impl View for IndexItem {
    type V = IndexItemModel;

    open spec fn view(&self) -> IndexItemModel {
        IndexItemModel {
            path: self.path@,
            archive_path: self.archive_path@,
            size: self.size,
            hash: self.hash@,
            skip_reason: self.skip_reason,
            lines: match self.lines {
                Some(l) => Some(l as nat),
                None => None,
            },
        }
    }
}

impl DeepView for IndexItem {
    type V = IndexItemModel;

    open spec fn deep_view(&self) -> IndexItemModel {
        self.view()
    }
}

} // verus!
