//! The cover-loading pipeline's state, as the interactive thread sees it.
//! Opening, decoding and resizing happen outside this crate; the state here
//! records what stage the current cover is in and how many resize payloads
//! have been folded into the displayed resource.

use vstd::prelude::*;

verus! {

/// What came of opening and decoding the selected book's cover file.
#[derive(Clone, Copy, Debug, PartialEq, Eq, Structural)]
pub enum CoverDecodeOutcome {
    /// The path was absent, unreadable or not an image.
    Failed,
    /// A decoded image is in hand and resize work was handed to the worker.
    Decoded,
}

/// The displayed cover resource. The pixel data lives outside this crate;
/// `revision` counts the resize payloads applied to it in place.
#[derive(Clone, Copy, Debug, PartialEq, Eq, Structural)]
pub struct CoverArt {
    pub revision: u64,
}

/// Stage of the current selection's cover.
#[derive(Clone, Copy, Debug, PartialEq, Eq, Structural)]
pub enum CoverStatus {
    /// No cover: nothing selected, no file, or decoding failed.
    Absent,
    /// A load was requested; the decode has not finished.
    Loading,
    /// A decoded, resize-aware resource is on display.
    Ready(CoverArt),
}

} // verus!
