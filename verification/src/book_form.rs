//! The transient edit buffer for adding or editing a record: one text field
//! per free-text attribute, enum and rating steppers, and an active-field
//! cursor that moves cyclically through the fixed field order.

use vstd::prelude::*;
use vstd::string::*;
use crate::book::{str_views, Book, BookId, DEFAULT_RATING, MAX_RATING, MIN_RATING};
use crate::date::{date_to_string, spec_date_text};
use crate::form_field::FormField;
use crate::reading_status::ReadingStatus;
use crate::text_input::{
    graphemes_of, spec_deleted, spec_inserted, spec_moved_left, spec_moved_right, TextInput,
};
use crate::util::dec_seq;

verus! {

/// The authors of a record joined with `", "`, as shown in the form.
pub open spec fn spec_join_authors(items: Seq<Seq<char>>) -> Seq<char>
    decreases items.len(),
{
    if items.len() == 0 {
        Seq::empty()
    } else if items.len() == 1 {
        items[0]
    } else {
        spec_join_authors(items.drop_last()) + seq![',', ' '] + items.last()
    }
}

/// Join the authors with `", "` into one line.
pub fn join_authors(authors: &Vec<String>) -> (r: String)
    ensures
        r@ == spec_join_authors(str_views(authors@)),
{
    let mut r = String::new();
    let mut i: usize = 0;
    let ghost views = str_views(authors@);
    proof {
        assert(views.take(0) =~= Seq::<Seq<char>>::empty());
    }
    while i < authors.len()
        invariant
            0 <= i <= authors@.len(),
            views == str_views(authors@),
            views.len() == authors@.len(),
            r@ == spec_join_authors(views.take(i as int)),
        decreases authors@.len() - i,
    {
        if i > 0 {
            r.append(", ");
        }
        r.append(authors[i].as_str());
        proof {
            reveal_strlit(", ");
            assert(", "@ =~= seq![',', ' ']);
            assert(views.take(i + 1).drop_last() =~= views.take(i as int));
            assert(views.take(i + 1).last() == views[i as int]);
            if i == 0 {
                assert(r@ =~= spec_join_authors(views.take(1)));
            } else {
                assert(r@ =~= spec_join_authors(views.take(i + 1)));
            }
        }
        i = i + 1;
    }
    proof {
        assert(views.take(authors@.len() as int) =~= views);
    }
    r
}

/// The edit buffer of the info pane.
#[derive(Debug)]
pub struct BookForm {
    pub id: Option<BookId>,
    pub title: TextInput,
    pub authors: TextInput,
    pub year: TextInput,
    pub pages: TextInput,
    pub reading_status: ReadingStatus,
    pub finished_at: TextInput,
    pub rating: u8,
    pub note: TextInput,
    pub active: FormField,
    pub error: Option<String>,
}

/// The parts of the form that a text edit leaves alone: everything but the
/// text field `f`.
pub open spec fn same_but_field(pre: BookForm, post: BookForm, f: FormField) -> bool {
    &&& post.id == pre.id
    &&& post.reading_status == pre.reading_status
    &&& post.rating == pre.rating
    &&& post.active == pre.active
    &&& post.error == pre.error
    &&& (f != FormField::Title ==> post.title == pre.title)
    &&& (f != FormField::Authors ==> post.authors == pre.authors)
    &&& (f != FormField::Year ==> post.year == pre.year)
    &&& (f != FormField::Pages ==> post.pages == pre.pages)
    &&& (f != FormField::FinishedAt ==> post.finished_at == pre.finished_at)
    &&& (f != FormField::Note ==> post.note == pre.note)
}

/// The parts of the form that the status and rating steppers leave alone:
/// everything but the reading status and the rating.
pub open spec fn same_texts(pre: BookForm, post: BookForm) -> bool {
    &&& post.id == pre.id
    &&& post.title == pre.title
    &&& post.authors == pre.authors
    &&& post.year == pre.year
    &&& post.pages == pre.pages
    &&& post.finished_at == pre.finished_at
    &&& post.note == pre.note
    &&& post.active == pre.active
    &&& post.error == pre.error
}

/// How the form changes when a character is typed: it enters the active
/// text field; the stepper fields ignore it.
pub open spec fn form_insert_rel(pre: BookForm, post: BookForm, c: char) -> bool {
    &&& same_but_field(pre, post, pre.active)
    &&& match pre.active {
        FormField::Title => spec_inserted(pre.title, post.title, c),
        FormField::Authors => spec_inserted(pre.authors, post.authors, c),
        FormField::Year => spec_inserted(pre.year, post.year, c),
        FormField::Pages => spec_inserted(pre.pages, post.pages, c),
        FormField::FinishedAt => spec_inserted(pre.finished_at, post.finished_at, c),
        FormField::Note => spec_inserted(pre.note, post.note, c),
        FormField::ReadingStatus => post == pre,
        FormField::Rating => post == pre,
    }
}

/// How the form changes on backspace.
pub open spec fn form_delete_rel(pre: BookForm, post: BookForm) -> bool {
    &&& same_but_field(pre, post, pre.active)
    &&& match pre.active {
        FormField::Title => spec_deleted(pre.title, post.title),
        FormField::Authors => spec_deleted(pre.authors, post.authors),
        FormField::Year => spec_deleted(pre.year, post.year),
        FormField::Pages => spec_deleted(pre.pages, post.pages),
        FormField::FinishedAt => spec_deleted(pre.finished_at, post.finished_at),
        FormField::Note => spec_deleted(pre.note, post.note),
        FormField::ReadingStatus => post == pre,
        FormField::Rating => post == pre,
    }
}

/// How the form changes on a left arrow: the status and rating fields step
/// down, every text field moves its cursor.
pub open spec fn form_left_rel(pre: BookForm, post: BookForm) -> bool {
    match pre.active {
        FormField::ReadingStatus => same_texts(pre, post) && post.rating == pre.rating
            && post.reading_status == pre.reading_status.spec_pred(),
        FormField::Rating => same_texts(pre, post) && post.reading_status == pre.reading_status
            && post.rating == if pre.rating > MIN_RATING {
            pre.rating - 1
        } else {
            pre.rating as int
        },
        _ => {
            &&& same_but_field(pre, post, pre.active)
            &&& match pre.active {
                FormField::Title => spec_moved_left(pre.title, post.title),
                FormField::Authors => spec_moved_left(pre.authors, post.authors),
                FormField::Year => spec_moved_left(pre.year, post.year),
                FormField::Pages => spec_moved_left(pre.pages, post.pages),
                FormField::FinishedAt => spec_moved_left(pre.finished_at, post.finished_at),
                FormField::Note => spec_moved_left(pre.note, post.note),
                _ => post == pre,
            }
        },
    }
}

/// How the form changes on a right arrow: the status and rating fields step
/// up, every text field moves its cursor.
pub open spec fn form_right_rel(pre: BookForm, post: BookForm) -> bool {
    match pre.active {
        FormField::ReadingStatus => same_texts(pre, post) && post.rating == pre.rating
            && post.reading_status == pre.reading_status.spec_succ(),
        FormField::Rating => same_texts(pre, post) && post.reading_status == pre.reading_status
            && post.rating == if pre.rating < MAX_RATING {
            pre.rating + 1
        } else {
            pre.rating as int
        },
        _ => {
            &&& same_but_field(pre, post, pre.active)
            &&& match pre.active {
                FormField::Title => spec_moved_right(pre.title, post.title),
                FormField::Authors => spec_moved_right(pre.authors, post.authors),
                FormField::Year => spec_moved_right(pre.year, post.year),
                FormField::Pages => spec_moved_right(pre.pages, post.pages),
                FormField::FinishedAt => spec_moved_right(pre.finished_at, post.finished_at),
                FormField::Note => spec_moved_right(pre.note, post.note),
                _ => post == pre,
            }
        },
    }
}

/// How the form changes when the active-field cursor moves `d` steps
/// through the cyclic field order: nothing else moves.
pub open spec fn form_retarget_rel(pre: BookForm, post: BookForm, d: int) -> bool {
    &&& post.active.ordinal() == (pre.active.ordinal() + d) % 8
    &&& post.id == pre.id
    &&& post.title == pre.title
    &&& post.authors == pre.authors
    &&& post.year == pre.year
    &&& post.pages == pre.pages
    &&& post.reading_status == pre.reading_status
    &&& post.finished_at == pre.finished_at
    &&& post.rating == pre.rating
    &&& post.note == pre.note
    &&& post.error == pre.error
}

/// The form's fields besides the error message are unchanged.
pub open spec fn form_same_but_error(pre: BookForm, post: BookForm) -> bool {
    &&& post.id == pre.id
    &&& post.title == pre.title
    &&& post.authors == pre.authors
    &&& post.year == pre.year
    &&& post.pages == pre.pages
    &&& post.reading_status == pre.reading_status
    &&& post.finished_at == pre.finished_at
    &&& post.rating == pre.rating
    &&& post.note == pre.note
    &&& post.active == pre.active
}

/// How a form filled from an existing record looks: every field carries the
/// record's value as text with the cursor at the end of that text, the
/// first field is active, and no error is set.
pub open spec fn form_filled_from(r: BookForm, book: Book) -> bool {
    &&& r.id == Some(book.id)
    &&& r.title.text@ == book.title@
    &&& r.authors.text@ == spec_join_authors(book@.authors)
    &&& r.year.text@ == dec_seq(book.year as int)
    &&& r.pages.text@ == dec_seq(book.pages as int)
    &&& r.reading_status == book.reading_status
    &&& r.finished_at.text@ == if book@.finished_at.len() > 0 {
        spec_date_text(book@.finished_at.last())
    } else {
        Seq::<char>::empty()
    }
    &&& r.rating == book.rating
    &&& r.note.text@ == book.note@
    &&& r.note.multiline
    &&& r.title.cursor == graphemes_of(r.title.text@).len()
    &&& r.authors.cursor == graphemes_of(r.authors.text@).len()
    &&& r.year.cursor == graphemes_of(r.year.text@).len()
    &&& r.pages.cursor == graphemes_of(r.pages.text@).len()
    &&& r.finished_at.cursor == graphemes_of(r.finished_at.text@).len()
    &&& r.note.cursor == graphemes_of(r.note.text@).len()
    &&& r.active == FormField::Title
    &&& r.error is None
}

impl BookForm {
    /// A form as `default` builds it: no id, blank fields with their
    /// cursors at the start, default rating, first field active, no error.
    pub open spec fn is_blank(self) -> bool {
        &&& self.id is None
        &&& self.title.text@ == Seq::<char>::empty()
        &&& self.authors.text@ == Seq::<char>::empty()
        &&& self.year.text@ == Seq::<char>::empty()
        &&& self.pages.text@ == Seq::<char>::empty()
        &&& self.reading_status == ReadingStatus::ToRead
        &&& self.finished_at.text@ == Seq::<char>::empty()
        &&& self.rating == DEFAULT_RATING
        &&& self.note.text@ == Seq::<char>::empty()
        &&& self.title.cursor == 0
        &&& self.authors.cursor == 0
        &&& self.year.cursor == 0
        &&& self.pages.cursor == 0
        &&& self.finished_at.cursor == 0
        &&& self.note.cursor == 0
        &&& self.active == FormField::Title
        &&& self.error is None
    }

    /// The rating stays in its range and every cursor stays inside its text.
    pub open spec fn wf(self) -> bool {
        &&& MIN_RATING <= self.rating <= MAX_RATING
        &&& self.title.wf()
        &&& self.authors.wf()
        &&& self.year.wf()
        &&& self.pages.wf()
        &&& self.finished_at.wf()
        &&& self.note.wf()
    }

    /// A form pre-filled from an existing record, for editing it.
    pub fn from(book: &Book) -> (r: BookForm)
        requires
            book.wf(),
        ensures
            form_filled_from(r, *book),
            r.id == Some(book.id),
            r.title.text@ == book.title@,
            r.authors.text@ == spec_join_authors(book@.authors),
            r.year.text@ == dec_seq(book.year as int),
            r.pages.text@ == dec_seq(book.pages as int),
            r.reading_status == book.reading_status,
            r.finished_at.text@ == if book@.finished_at.len() > 0 {
                spec_date_text(book@.finished_at.last())
            } else {
                Seq::<char>::empty()
            },
            r.rating == book.rating,
            r.note.text@ == book.note@,
            r.note.multiline,
            r.active == FormField::Title,
            r.error is None,
            r.wf(),
    {
        let finished_text = if book.finished_at.len() > 0 {
            date_to_string(&book.finished_at[book.finished_at.len() - 1])
        } else {
            String::new()
        };
        BookForm {
            id: Some(book.id),
            title: TextInput::new(String::from_str(book.title.as_str())),
            authors: TextInput::new(join_authors(&book.authors)),
            year: TextInput::new(crate::util::u16_to_string(book.year)),
            pages: TextInput::new(crate::util::u16_to_string(book.pages)),
            reading_status: book.reading_status,
            finished_at: TextInput::new(finished_text),
            rating: book.rating,
            note: TextInput::new(String::from_str(book.note.as_str())).multiline(true),
            active: FormField::Title,
            error: None,
        }
    }

    /// A blank form for adding a record: empty fields, default rating,
    /// first field active.
    pub fn default() -> (r: BookForm)
        ensures
            r.is_blank(),
            r.id is None,
            r.title.text@ == Seq::<char>::empty(),
            r.authors.text@ == Seq::<char>::empty(),
            r.year.text@ == Seq::<char>::empty(),
            r.pages.text@ == Seq::<char>::empty(),
            r.reading_status == ReadingStatus::ToRead,
            r.finished_at.text@ == Seq::<char>::empty(),
            r.rating == DEFAULT_RATING,
            r.note.text@ == Seq::<char>::empty(),
            r.active == FormField::Title,
            r.error is None,
            r.wf(),
    {
        BookForm {
            id: None,
            title: TextInput::default(),
            authors: TextInput::default(),
            year: TextInput::default(),
            pages: TextInput::default(),
            reading_status: ReadingStatus::ToRead,
            finished_at: TextInput::default(),
            rating: DEFAULT_RATING,
            note: TextInput::default().multiline(true),
            active: FormField::Title,
            error: None,
        }
    }

    /// Type `c` into the active text field; a no-op on the stepper fields.
    pub fn insert_char(&mut self, c: char)
        requires
            old(self).wf(),
        ensures
            final(self).wf(),
            same_but_field(*old(self), *final(self), old(self).active),
            match old(self).active {
                FormField::Title => spec_inserted(old(self).title, final(self).title, c),
                FormField::Authors => spec_inserted(old(self).authors, final(self).authors, c),
                FormField::Year => spec_inserted(old(self).year, final(self).year, c),
                FormField::Pages => spec_inserted(old(self).pages, final(self).pages, c),
                FormField::FinishedAt => spec_inserted(
                    old(self).finished_at,
                    final(self).finished_at,
                    c,
                ),
                FormField::Note => spec_inserted(old(self).note, final(self).note, c),
                FormField::ReadingStatus => *final(self) == *old(self),
                FormField::Rating => *final(self) == *old(self),
            },
    {
        match self.active {
            FormField::Title => self.title.insert_char(c),
            FormField::Authors => self.authors.insert_char(c),
            FormField::Year => self.year.insert_char(c),
            FormField::Pages => self.pages.insert_char(c),
            FormField::FinishedAt => self.finished_at.insert_char(c),
            FormField::Note => self.note.insert_char(c),
            FormField::ReadingStatus => (),
            FormField::Rating => (),
        }
    }

    /// Backspace in the active text field; a no-op on the stepper fields.
    pub fn delete_char(&mut self)
        requires
            old(self).wf(),
        ensures
            final(self).wf(),
            same_but_field(*old(self), *final(self), old(self).active),
            match old(self).active {
                FormField::Title => spec_deleted(old(self).title, final(self).title),
                FormField::Authors => spec_deleted(old(self).authors, final(self).authors),
                FormField::Year => spec_deleted(old(self).year, final(self).year),
                FormField::Pages => spec_deleted(old(self).pages, final(self).pages),
                FormField::FinishedAt => spec_deleted(
                    old(self).finished_at,
                    final(self).finished_at,
                ),
                FormField::Note => spec_deleted(old(self).note, final(self).note),
                FormField::ReadingStatus => *final(self) == *old(self),
                FormField::Rating => *final(self) == *old(self),
            },
    {
        match self.active {
            FormField::Title => self.title.delete_char(),
            FormField::Authors => self.authors.delete_char(),
            FormField::Year => self.year.delete_char(),
            FormField::Pages => self.pages.delete_char(),
            FormField::FinishedAt => self.finished_at.delete_char(),
            FormField::Note => self.note.delete_char(),
            FormField::ReadingStatus => (),
            FormField::Rating => (),
        }
    }

    /// Move the cursor of the active text field one step left.
    pub fn move_cursor_left(&mut self)
        requires
            old(self).wf(),
        ensures
            final(self).wf(),
            same_but_field(*old(self), *final(self), old(self).active),
            match old(self).active {
                FormField::Title => spec_moved_left(old(self).title, final(self).title),
                FormField::Authors => spec_moved_left(old(self).authors, final(self).authors),
                FormField::Year => spec_moved_left(old(self).year, final(self).year),
                FormField::Pages => spec_moved_left(old(self).pages, final(self).pages),
                FormField::FinishedAt => spec_moved_left(
                    old(self).finished_at,
                    final(self).finished_at,
                ),
                FormField::Note => spec_moved_left(old(self).note, final(self).note),
                FormField::ReadingStatus => *final(self) == *old(self),
                FormField::Rating => *final(self) == *old(self),
            },
    {
        match self.active {
            FormField::Title => self.title.move_cursor_left(),
            FormField::Authors => self.authors.move_cursor_left(),
            FormField::Year => self.year.move_cursor_left(),
            FormField::Pages => self.pages.move_cursor_left(),
            FormField::FinishedAt => self.finished_at.move_cursor_left(),
            FormField::Note => self.note.move_cursor_left(),
            FormField::ReadingStatus => (),
            FormField::Rating => (),
        }
    }

    /// Move the cursor of the active text field one step right.
    pub fn move_cursor_right(&mut self)
        requires
            old(self).wf(),
        ensures
            final(self).wf(),
            same_but_field(*old(self), *final(self), old(self).active),
            match old(self).active {
                FormField::Title => spec_moved_right(old(self).title, final(self).title),
                FormField::Authors => spec_moved_right(old(self).authors, final(self).authors),
                FormField::Year => spec_moved_right(old(self).year, final(self).year),
                FormField::Pages => spec_moved_right(old(self).pages, final(self).pages),
                FormField::FinishedAt => spec_moved_right(
                    old(self).finished_at,
                    final(self).finished_at,
                ),
                FormField::Note => spec_moved_right(old(self).note, final(self).note),
                FormField::ReadingStatus => *final(self) == *old(self),
                FormField::Rating => *final(self) == *old(self),
            },
    {
        match self.active {
            FormField::Title => self.title.move_cursor_right(),
            FormField::Authors => self.authors.move_cursor_right(),
            FormField::Year => self.year.move_cursor_right(),
            FormField::Pages => self.pages.move_cursor_right(),
            FormField::FinishedAt => self.finished_at.move_cursor_right(),
            FormField::Note => self.note.move_cursor_right(),
            FormField::ReadingStatus => (),
            FormField::Rating => (),
        }
    }

    /// Step the reading status forward, clamped at `Read`; only acts while
    /// the status field is active.
    pub fn increase_reading_status(&mut self)
        ensures
            same_texts(*old(self), *final(self)),
            final(self).rating == old(self).rating,
            final(self).reading_status == if old(self).active == FormField::ReadingStatus {
                old(self).reading_status.spec_succ()
            } else {
                old(self).reading_status
            },
            old(self).wf() ==> final(self).wf(),
    {
        if matches!(self.active, FormField::ReadingStatus) && !matches!(
            self.reading_status,
            ReadingStatus::Read,
        ) {
            self.reading_status = ReadingStatus::from(self.reading_status.index() + 1);
        }
    }

    /// Step the reading status back, clamped at `ToRead`; only acts while
    /// the status field is active.
    pub fn decrease_reading_status(&mut self)
        ensures
            same_texts(*old(self), *final(self)),
            final(self).rating == old(self).rating,
            final(self).reading_status == if old(self).active == FormField::ReadingStatus {
                old(self).reading_status.spec_pred()
            } else {
                old(self).reading_status
            },
            old(self).wf() ==> final(self).wf(),
    {
        if matches!(self.active, FormField::ReadingStatus) && !matches!(
            self.reading_status,
            ReadingStatus::ToRead,
        ) {
            self.reading_status = ReadingStatus::from(self.reading_status.index() - 1);
        }
    }

    /// Raise the rating by one, clamped at the top of the range; only acts
    /// while the rating field is active.
    pub fn increase_rating(&mut self)
        ensures
            same_texts(*old(self), *final(self)),
            final(self).reading_status == old(self).reading_status,
            final(self).rating == if old(self).active == FormField::Rating && old(self).rating
                < MAX_RATING {
                old(self).rating + 1
            } else {
                old(self).rating as int
            },
            old(self).wf() ==> final(self).wf(),
    {
        if matches!(self.active, FormField::Rating) && self.rating < MAX_RATING {
            self.rating = self.rating + 1;
        }
    }

    /// Lower the rating by one, clamped at the bottom of the range; only
    /// acts while the rating field is active.
    pub fn decrease_rating(&mut self)
        ensures
            same_texts(*old(self), *final(self)),
            final(self).reading_status == old(self).reading_status,
            final(self).rating == if old(self).active == FormField::Rating && old(self).rating
                > MIN_RATING {
                old(self).rating - 1
            } else {
                old(self).rating as int
            },
            old(self).wf() ==> final(self).wf(),
    {
        if matches!(self.active, FormField::Rating) && self.rating > MIN_RATING {
            self.rating = self.rating - 1;
        }
    }

    /// Make the next field active, wrapping past the last.
    pub fn next_field(&mut self)
        ensures
            final(self).active.ordinal() == (old(self).active.ordinal() + 1) % 8,
            final(self).id == old(self).id,
            final(self).title == old(self).title,
            final(self).authors == old(self).authors,
            final(self).year == old(self).year,
            final(self).pages == old(self).pages,
            final(self).reading_status == old(self).reading_status,
            final(self).finished_at == old(self).finished_at,
            final(self).rating == old(self).rating,
            final(self).note == old(self).note,
            final(self).error == old(self).error,
            old(self).wf() ==> final(self).wf(),
    {
        self.active = self.active.next();
    }

    /// Make the previous field active, wrapping past the first.
    pub fn previous_field(&mut self)
        ensures
            final(self).active.ordinal() == (old(self).active.ordinal() + 7) % 8,
            final(self).id == old(self).id,
            final(self).title == old(self).title,
            final(self).authors == old(self).authors,
            final(self).year == old(self).year,
            final(self).pages == old(self).pages,
            final(self).reading_status == old(self).reading_status,
            final(self).finished_at == old(self).finished_at,
            final(self).rating == old(self).rating,
            final(self).note == old(self).note,
            final(self).error == old(self).error,
            old(self).wf() ==> final(self).wf(),
    {
        self.active = self.active.prev();
    }

    /// Forget a stale validation error.
    pub fn clear_error(&mut self)
        ensures
            final(self).error is None,
            final(self).id == old(self).id,
            final(self).title == old(self).title,
            final(self).authors == old(self).authors,
            final(self).year == old(self).year,
            final(self).pages == old(self).pages,
            final(self).reading_status == old(self).reading_status,
            final(self).finished_at == old(self).finished_at,
            final(self).rating == old(self).rating,
            final(self).note == old(self).note,
            final(self).active == old(self).active,
            old(self).wf() ==> final(self).wf(),
    {
        self.error = None;
    }
}

} // verus!
