//! The three-step reading status of a book record.

use vstd::prelude::*;

verus! {

/// How far the user has come with a book.
#[derive(Clone, Copy, Debug, PartialEq, Eq, Structural)]
pub enum ReadingStatus {
    ToRead,
    Reading,
    Read,
}

impl ReadingStatus {
    /// Ordinal position of the status, from `ToRead` (0) to `Read` (2).
    pub open spec fn spec_index(self) -> int {
        match self {
            ReadingStatus::ToRead => 0,
            ReadingStatus::Reading => 1,
            ReadingStatus::Read => 2,
        }
    }

    /// The next status, clamped at `Read`.
    pub open spec fn spec_succ(self) -> ReadingStatus {
        match self {
            ReadingStatus::ToRead => ReadingStatus::Reading,
            ReadingStatus::Reading => ReadingStatus::Read,
            ReadingStatus::Read => ReadingStatus::Read,
        }
    }

    /// The previous status, clamped at `ToRead`.
    pub open spec fn spec_pred(self) -> ReadingStatus {
        match self {
            ReadingStatus::ToRead => ReadingStatus::ToRead,
            ReadingStatus::Reading => ReadingStatus::ToRead,
            ReadingStatus::Read => ReadingStatus::Reading,
        }
    }

    /// Ordinal position of the status, from `ToRead` (0) to `Read` (2).
    pub fn index(&self) -> (r: usize)
        ensures
            r as int == self.spec_index(),
    {
        match self {
            ReadingStatus::ToRead => 0,
            ReadingStatus::Reading => 1,
            ReadingStatus::Read => 2,
        }
    }

    /// The status at ordinal position `index`.
    pub fn from(index: usize) -> (r: Self)
        requires
            index <= 2,
        ensures
            r.spec_index() == index as int,
    {
        match index {
            0 => ReadingStatus::ToRead,
            1 => ReadingStatus::Reading,
            _ => ReadingStatus::Read,
        }
    }
}

} // verus!
