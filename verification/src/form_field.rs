//! The fixed order of the form's fields and cyclic movement between them.

use vstd::prelude::*;

verus! {

/// Number of fields of the form.
pub const FIELD_COUNT: u8 = 8;

/// One field of the book form, in the order the form shows them.
#[derive(Clone, Copy, Debug, PartialEq, Eq, Structural)]
pub enum FormField {
    Title,
    Authors,
    Year,
    Pages,
    ReadingStatus,
    FinishedAt,
    Rating,
    Note,
}

impl FormField {
    /// Ordinal position of the field in the form.
    pub open spec fn ordinal(self) -> int {
        match self {
            FormField::Title => 0,
            FormField::Authors => 1,
            FormField::Year => 2,
            FormField::Pages => 3,
            FormField::ReadingStatus => 4,
            FormField::FinishedAt => 5,
            FormField::Rating => 6,
            FormField::Note => 7,
        }
    }

    /// The field after this one, wrapping from the last to the first.
    pub fn next(&self) -> (r: Self)
        ensures
            r.ordinal() == (self.ordinal() + 1) % (FIELD_COUNT as int),
    {
        match self {
            FormField::Title => FormField::Authors,
            FormField::Authors => FormField::Year,
            FormField::Year => FormField::Pages,
            FormField::Pages => FormField::ReadingStatus,
            FormField::ReadingStatus => FormField::FinishedAt,
            FormField::FinishedAt => FormField::Rating,
            FormField::Rating => FormField::Note,
            FormField::Note => FormField::Title,
        }
    }

    /// The field before this one, wrapping from the first to the last.
    pub fn prev(&self) -> (r: Self)
        ensures
            r.ordinal() == (self.ordinal() + FIELD_COUNT - 1) % (FIELD_COUNT as int),
    {
        match self {
            FormField::Title => FormField::Note,
            FormField::Authors => FormField::Title,
            FormField::Year => FormField::Authors,
            FormField::Pages => FormField::Year,
            FormField::ReadingStatus => FormField::Pages,
            FormField::FinishedAt => FormField::ReadingStatus,
            FormField::Rating => FormField::FinishedAt,
            FormField::Note => FormField::Rating,
        }
    }
}

} // verus!
