//! State of the info pane: its mode, the edit form, and the cover stage.

use vstd::prelude::*;
use crate::book_form::BookForm;
use crate::cover::{CoverArt, CoverDecodeOutcome, CoverStatus};

verus! {

/// What the info pane shows: the selected record, or the form for adding
/// or editing one.
#[derive(Clone, Copy, Debug, PartialEq, Eq, Structural)]
pub enum BookInfoMode {
    View,
    Add,
    Edit,
}

/// The info pane's state.
#[derive(Debug)]
pub struct BookInfoState {
    pub mode: BookInfoMode,
    pub form: BookForm,
    pub cover: CoverStatus,
}

impl BookInfoState {
    /// A fresh info pane: viewing, blank form, no cover.
    pub fn new() -> (r: Self)
        ensures
            r.mode == BookInfoMode::View,
            r.form.is_blank(),
            r.form.wf(),
            r.cover is Absent,
    {
        BookInfoState { mode: BookInfoMode::View, form: BookForm::default(), cover: CoverStatus::Absent }
    }

    /// Record the outcome of the decode step of a cover load: a failure
    /// degrades to no cover, a success puts a fresh resource on display.
    pub fn finish_cover_load(&mut self, outcome: CoverDecodeOutcome)
        ensures
            outcome == CoverDecodeOutcome::Failed ==> final(self).cover is Absent,
            outcome == CoverDecodeOutcome::Decoded ==> (final(self).cover
                matches CoverStatus::Ready(a) && a.revision == 0),
            final(self).mode == old(self).mode,
            final(self).form == old(self).form,
    {
        match outcome {
            CoverDecodeOutcome::Failed => {
                self.cover = CoverStatus::Absent;
            },
            CoverDecodeOutcome::Decoded => {
                self.cover = CoverStatus::Ready(CoverArt { revision: 0 });
            },
        }
    }

    /// A resize payload arrived from the worker. It is folded into the
    /// displayed resource only if a cover is still on display; the caller
    /// applies it exactly when this returns true. A stale payload may thus
    /// still be applied to the current cover: it only refreshes a rendering
    /// resource, and the next selection change supersedes it.
    pub fn handle_cover_response(&mut self) -> (applied: bool)
        ensures
            applied == (old(self).cover is Ready),
            old(self).cover matches CoverStatus::Ready(a) ==> (final(self).cover
                matches CoverStatus::Ready(b) && b.revision == if a.revision < u64::MAX {
                a.revision + 1
            } else {
                a.revision as int
            }),
            !(old(self).cover is Ready) ==> final(self).cover == old(self).cover,
            final(self).mode == old(self).mode,
            final(self).form == old(self).form,
    {
        match self.cover {
            CoverStatus::Ready(a) => {
                let rev = if a.revision < u64::MAX {
                    a.revision + 1
                } else {
                    a.revision
                };
                self.cover = CoverStatus::Ready(CoverArt { revision: rev });
                true
            },
            _ => false,
        }
    }
}

} // verus!
