//! The application state machine: the sorted collection with its selection
//! cursor, the info pane, the status line, focus, and message dispatch.

use vstd::prelude::*;
use vstd::seq_lib::*;
use vstd::multiset::group_multiset_axioms;
use crate::book::{
    spec_built_from, spec_first_error, spec_form_valid, spec_message, spec_title_normalized,
    str_views, Book, BookId,
};
use crate::book_form::{
    form_delete_rel, form_filled_from, form_insert_rel, form_left_rel, form_retarget_rel,
    form_right_rel, form_same_but_error, BookForm,
};
use crate::book_info::{BookInfoMode, BookInfoState};
use crate::cover::CoverStatus;
use crate::date::Date;
use crate::form_field::FormField;
use crate::reading_status::ReadingStatus;
use crate::util::{lemma_lex_le_total, lemma_lex_le_trans, lex_le, str_lex_le};

verus! {

/// Which pane owns keyboard input.
#[derive(Clone, Copy, Debug, PartialEq, Eq, Structural)]
pub enum Focus {
    Table,
    Info,
    Status,
}

/// Whether the outer loop keeps running.
#[derive(Clone, Copy, Debug, PartialEq, Eq, Structural)]
pub enum RunningState {
    Running,
    Done,
}

/// State of the status line.
#[derive(Debug)]
pub enum StatusMode {
    Normal,
    Error(String),
    ConfirmDeleteBook,
}

/// An abstract input event, produced by the key-mapping layer.
#[derive(Clone, Copy, Debug, PartialEq, Eq, Structural)]
pub enum Message {
    Quit,
    NextBook,
    PreviousBook,
    AddBook,
    EditBook,
    DeleteBook,
    ConfirmDeleteBook,
    CancelConfirm,
    CancelForm,
    NewLineChar,
    InsertChar(char),
    DeleteChar,
    FormRight,
    FormLeft,
    NextFormField,
    PreviousFormField,
    SubmitForm,
}

/// Ordering of records in the table: by normalized title.
pub open spec fn book_le(a: Book, b: Book) -> bool {
    lex_le(spec_title_normalized(a.title@), spec_title_normalized(b.title@))
}

/// The sequence is sorted by normalized title.
pub open spec fn books_sorted(s: Seq<Book>) -> bool {
    forall|i: int, j: int| 0 <= i < j < s.len() ==> book_le(s[i], s[j])
}

/// Whether `a` sorts at or before `b`.
fn title_le(a: &Book, b: &Book) -> (r: bool)
    ensures
        r == book_le(*a, *b),
{
    let an = a.title_normalized();
    let bn = b.title_normalized();
    str_lex_le(an.as_str(), bn.as_str())
}

/// Sort the records by normalized title. Records with equal keys may come
/// out in any order; the multiset of records is kept.
pub fn sort_books(v: &mut Vec<Book>)
    ensures
        final(v)@.to_multiset() == old(v)@.to_multiset(),
        final(v)@.len() == old(v)@.len(),
        books_sorted(final(v)@),
{
    broadcast use group_to_multiset_ensures;

    let ghost orig = v@;
    if v.len() == 0 {
        return;
    }
    let mut i: usize = 1;
    while i < v.len()
        invariant
            1 <= i <= v@.len(),
            v@.len() == orig.len(),
            v@.to_multiset() == orig.to_multiset(),
            books_sorted(v@.take(i as int)),
        decreases v@.len() - i,
    {
        broadcast use group_to_multiset_ensures;

        let ghost before = v@;
        let x = v.remove(i);
        let mut k: usize = 0;
        while k < i && title_le(&v[k], &x)
            invariant
                0 <= k <= i,
                i < before.len(),
                v@ == before.remove(i as int),
                forall|t: int| 0 <= t < k ==> book_le(#[trigger] v@[t], x),
            decreases i - k,
        {
            k = k + 1;
        }
        proof {
            if k < i {
                lemma_lex_le_total(
                    spec_title_normalized(v@[k as int].title@),
                    spec_title_normalized(x.title@),
                );
            }
        }
        let ghost mid = v@;
        v.insert(k, x);
        proof {
            assert(v@.to_multiset() == before.to_multiset()) by {
                assert(mid.to_multiset() == before.to_multiset().remove(before[i as int]));
                assert(v@.to_multiset() == mid.to_multiset().insert(x));
                assert(before.to_multiset().count(x) >= 1) by {
                    assert(before[i as int] == x);
                    assert(before.contains(x));
                }
                assert(before.to_multiset().remove(x).insert(x) =~= before.to_multiset());
            }
            assert(books_sorted(v@.take(i + 1))) by {
                let pre = v@.take(i + 1);
                assert(forall|t: int| 0 <= t < i ==> mid[t] == before[t]);
                assert forall|a: int, b: int| 0 <= a < b < pre.len() implies book_le(
                    pre[a],
                    pre[b],
                ) by {
                    if a < k && b == k {
                        assert(pre[a] == before[a]);
                        assert(pre[b] == x);
                    } else if a == k && b > k {
                        assert(pre[a] == x);
                        assert(pre[b] == before[b - 1]);
                        assert(!book_le(before[k as int], x));
                        lemma_lex_le_total(
                            spec_title_normalized(before[k as int].title@),
                            spec_title_normalized(x.title@),
                        );
                        assert(book_le(x, before[k as int]));
                        if b - 1 > k {
                            assert(book_le(before[k as int], before[b - 1]));
                            lemma_lex_le_trans(
                                spec_title_normalized(x.title@),
                                spec_title_normalized(before[k as int].title@),
                                spec_title_normalized(before[b - 1].title@),
                            );
                        }
                    } else if a < k && b > k {
                        assert(pre[a] == before[a]);
                        assert(pre[b] == before[b - 1]);
                    } else if a < k && b < k {
                        assert(pre[a] == before[a]);
                        assert(pre[b] == before[b]);
                    } else if a > k && b > k {
                        assert(pre[a] == before[a - 1]);
                        assert(pre[b] == before[b - 1]);
                    }
                }
            }
        }
        i = i + 1;
    }
    proof {
        assert(v@.take(v@.len() as int) =~= v@);
    }
}

/// What the dispatch loop should do after a message was applied.
pub struct UpdateOutcome {
    /// A follow-up message to feed back into `update`.
    pub next: Option<Message>,
    /// Durable content changed: write the state out.
    pub persist: bool,
    /// A cover load was started for the record at this index: open and
    /// decode its cover file and report back with `finish_cover_load`.
    pub cover_request: Option<usize>,
}

/// The persisted shape of the application: the ordered records and the
/// selection cursor.
#[derive(Debug)]
pub struct SavedState {
    pub books: Vec<Book>,
    pub selected: Option<usize>,
}

impl SavedState {
    /// The persisted shape of a model; the same as [`Model::snapshot`].
    pub fn from(model: &Model) -> (r: SavedState)
        ensures
            r.books@.len() == model.books@.len(),
            forall|i: int|
                0 <= i < r.books@.len() ==> (#[trigger] r.books@[i])@ == model.books@[i]@,
            r.selected == model.selected,
    {
        model.snapshot()
    }
}

/// The whole application state.
#[derive(Debug)]
pub struct Model {
    pub books: Vec<Book>,
    pub selected: Option<usize>,
    pub book_info: BookInfoState,
    pub status: StatusMode,
    pub focus: Focus,
    pub running_state: RunningState,
}

impl Model {
    /// The selection cursor is `None` exactly when the collection is empty
    /// and otherwise in range; the records and the form are well-formed.
    pub open spec fn wf(self) -> bool {
        &&& (self.selected is None <==> self.books@.len() == 0)
        &&& (self.selected matches Some(i) ==> i < self.books@.len())
        &&& forall|i: int| 0 <= i < self.books@.len() ==> (#[trigger] self.books@[i]).wf()
        &&& self.book_info.form.wf()
    }

    /// Restore a model from the persisted state. An out-of-range or missing
    /// cursor is clamped so the selection invariant holds from the start.
    pub fn from(saved: SavedState) -> (r: Model)
        requires
            forall|i: int| 0 <= i < saved.books@.len() ==> (#[trigger] saved.books@[i]).wf(),
        ensures
            r.books@ == saved.books@,
            r.selected == spec_clamped_selection(saved.selected, saved.books@.len() as int),
            r.book_info.mode == BookInfoMode::View,
            r.book_info.form.is_blank(),
            r.book_info.cover is Absent,
            r.status is Normal,
            r.focus == Focus::Table,
            r.running_state == RunningState::Running,
            r.wf(),
    {
        let selected: Option<usize> = if saved.books.len() == 0 {
            None
        } else {
            match saved.selected {
                Some(i) => {
                    if i < saved.books.len() {
                        Some(i)
                    } else {
                        Some(saved.books.len() - 1)
                    }
                },
                None => Some(0),
            }
        };
        Model {
            books: saved.books,
            selected,
            book_info: BookInfoState::new(),
            status: StatusMode::Normal,
            focus: Focus::Table,
            running_state: RunningState::Running,
        }
    }

    /// The persisted shape of the current state.
    pub fn snapshot(&self) -> (r: SavedState)
        ensures
            r.books@.len() == self.books@.len(),
            forall|i: int| 0 <= i < r.books@.len() ==> (#[trigger] r.books@[i])@ == self.books@[i]@,
            r.selected == self.selected,
    {
        let mut books: Vec<Book> = Vec::new();
        let mut i: usize = 0;
        while i < self.books.len()
            invariant
                0 <= i <= self.books@.len(),
                books@.len() == i,
                forall|t: int| 0 <= t < i ==> (#[trigger] books@[t])@ == self.books@[t]@,
            decreases self.books@.len() - i,
        {
            books.push(self.books[i].duplicate());
            i = i + 1;
        }
        SavedState { books, selected: self.selected }
    }

    /// The record under the cursor, if any.
    pub fn get_selected_book(&self) -> (r: Option<&Book>)
        requires
            self.wf(),
        ensures
            r is Some <==> self.selected is Some,
            r matches Some(b) ==> self.selected matches Some(i) && *b == self.books@[i as int],
    {
        match self.selected {
            Some(i) => Some(&self.books[i]),
            None => None,
        }
    }

    /// Move the cursor one row down, stopping at the last row; a no-op on
    /// an empty collection.
    pub fn select_next_book(&mut self)
        requires
            old(self).wf(),
        ensures
            final(self).wf(),
            same_model_but_selection(*old(self), *final(self)),
            final(self).selected == match old(self).selected {
                Some(i) => if i + 1 < old(self).books@.len() {
                    Some((i + 1) as usize)
                } else {
                    Some(i)
                },
                None => None::<usize>,
            },
    {
        let len = self.books.len();
        match self.selected {
            Some(i) => {
                if i < len && i + 1 < len {
                    self.selected = Some(i + 1);
                }
            },
            None => (),
        }
    }

    /// Move the cursor one row up, stopping at the first row; a no-op on an
    /// empty collection.
    pub fn select_previous_book(&mut self)
        requires
            old(self).wf(),
        ensures
            final(self).wf(),
            same_model_but_selection(*old(self), *final(self)),
            final(self).selected == match old(self).selected {
                Some(i) => if i > 0 {
                    Some((i - 1) as usize)
                } else {
                    Some(i)
                },
                None => None::<usize>,
            },
    {
        match self.selected {
            Some(i) => {
                if i > 0 {
                    self.selected = Some(i - 1);
                }
            },
            None => (),
        }
    }

    /// Index of the first record with this id.
    pub fn get_table_position_by_id(&self, book_id: BookId) -> (r: Option<usize>)
        ensures
            r matches Some(i) ==> i < self.books@.len() && self.books@[i as int].id == book_id
                && (forall|t: int| 0 <= t < i ==> self.books@[t].id != book_id),
            r is None ==> forall|t: int|
                0 <= t < self.books@.len() ==> self.books@[t].id != book_id,
    {
        let mut i: usize = 0;
        while i < self.books.len()
            invariant
                0 <= i <= self.books@.len(),
                forall|t: int| 0 <= t < i ==> self.books@[t].id != book_id,
            decreases self.books@.len() - i,
        {
            if self.books[i].id.0 == book_id.0 {
                return Some(i);
            }
            i = i + 1;
        }
        None
    }

    /// Put the cursor on the first record with this id; no move when no
    /// record has it.
    pub fn select_book_by_id(&mut self, id: BookId)
        requires
            old(self).wf(),
        ensures
            final(self).wf(),
            same_model_but_selection(*old(self), *final(self)),
            (exists|t: int| 0 <= t < old(self).books@.len() && old(self).books@[t].id == id)
                ==> (final(self).selected matches Some(i) && old(self).books@[i as int].id == id
                && (forall|t: int| 0 <= t < i ==> old(self).books@[t].id != id)),
            !(exists|t: int| 0 <= t < old(self).books@.len() && old(self).books@[t].id == id)
                ==> final(self).selected == old(self).selected,
    {
        match self.get_table_position_by_id(id) {
            Some(position) => {
                self.selected = Some(position);
            },
            None => (),
        }
    }

    /// Add a record: append, re-sort, and re-select the record by its id —
    /// sorting may have moved it anywhere. When no existing record carries
    /// the new record's id — ids are assigned once and unique — the row
    /// selected afterwards holds the inserted record itself.
    pub fn add_book(&mut self, book: Book)
        requires
            old(self).wf(),
            book.wf(),
        ensures
            final(self).wf(),
            final(self).books@.len() == old(self).books@.len() + 1,
            final(self).books@.to_multiset() == old(self).books@.to_multiset().insert(book),
            books_sorted(final(self).books@),
            selection_on_first_of(final(self).books@, final(self).selected, book.id),
            same_model_but_books(*old(self), *final(self)),
            (forall|t: int|
                0 <= t < old(self).books@.len() ==> (#[trigger] old(self).books@[t]).id
                    != book.id) ==> (final(self).selected matches Some(i)
                && final(self).books@[i as int] == book),
    {
        broadcast use group_to_multiset_ensures, group_multiset_axioms;

        let id = book.id;
        let ghost gb = book;
        let ghost orig = self.books@;
        self.books.push(book);
        sort_books(&mut self.books);
        proof {
            assert(self.books@.to_multiset() == orig.to_multiset().insert(gb));
            assert(self.books@.to_multiset().count(gb) > 0);
            assert(self.books@.contains(gb));
            lemma_wf_all_from_multiset(orig, self.books@, gb);
        }
        self.reselect_by_id(id);
        proof {
            if forall|t: int|
                0 <= t < old(self).books@.len() ==> (#[trigger] old(self).books@[t]).id != gb.id {
                lemma_insert_then_locate(*old(self), *self, gb);
            }
        }
    }

    /// Replace the selected record with the validated form's result; the
    /// original id is preserved, the collection re-sorted, and the record
    /// re-selected by id.
    pub fn update_book(&mut self, book: Book)
        requires
            old(self).wf(),
            book.wf(),
            old(self).selected is Some,
        ensures
            final(self).wf(),
            final(self).books@.len() == old(self).books@.len(),
            (final(self).books@.to_multiset() == old(self).books@.to_multiset().remove(
                old(self).books@[old(self).selected->Some_0 as int],
            ).insert((Book { id: old(self).books@[old(self).selected->Some_0 as int].id, ..book }))),
            books_sorted(final(self).books@),
            selection_on_first_of(
                final(self).books@,
                final(self).selected,
                old(self).books@[old(self).selected->Some_0 as int].id,
            ),
            same_model_but_books(*old(self), *final(self)),
    {
        broadcast use group_to_multiset_ensures, group_multiset_axioms;

        let sel = match self.selected {
            Some(i) => i,
            None => {
                proof {
                    assert(false);
                }
                0
            },
        };
        let kept = self.books[sel].id;
        let mut nb = book;
        nb.id = kept;
        let ghost orig = self.books@;
        let ghost removed = self.books@[sel as int];
        let _ = self.books.remove(sel);
        self.books.insert(sel, nb);
        proof {
            assert(self.books@.to_multiset() == orig.to_multiset().remove(removed).insert(nb));
            assert(self.books@.to_multiset().count(nb) > 0) by {
                assert(self.books@[sel as int] == nb);
                assert(self.books@.contains(nb));
            }
        }
        sort_books(&mut self.books);
        proof {
            assert(nb.wf()) by {
                assert(nb@.authors == book@.authors);
                assert(nb@.finished_at == book@.finished_at);
                assert(nb@.rating == book@.rating);
            }
            assert(self.books@.to_multiset().count(nb) > 0);
            assert(self.books@.contains(nb));
            lemma_wf_all_from_multiset(orig, self.books@, nb);
        }
        self.reselect_by_id(kept);
    }

    /// Remove the record at `book_index` (the selected row). If the
    /// collection becomes empty the selection clears; if the removed row was
    /// the last one the selection steps to the new last row; otherwise it
    /// stays put.
    pub fn delete_book(&mut self, book_index: usize)
        requires
            old(self).wf(),
            old(self).selected == Some(book_index),
        ensures
            final(self).wf(),
            final(self).books@ == old(self).books@.remove(book_index as int),
            final(self).selected == (if old(self).books@.len() == 1 {
                None
            } else if book_index == old(self).books@.len() - 1 {
                Some((book_index - 1) as usize)
            } else {
                Some(book_index)
            }),
            same_model_but_books(*old(self), *final(self)),
    {
        let _ = self.books.remove(book_index);
        if self.books.len() == 0 {
            self.selected = None;
        } else if book_index == self.books.len() {
            self.selected = Some(book_index - 1);
        }
        proof {
            assert forall|t: int| 0 <= t < self.books@.len() implies (#[trigger] self.books@[t]).wf()
            by {
                if t < book_index {
                    assert(self.books@[t] == old(self).books@[t]);
                } else {
                    assert(self.books@[t] == old(self).books@[t + 1]);
                }
            }
        }
    }

    fn reselect_by_id(&mut self, id: BookId)
        requires
            exists|t: int|
                0 <= t < old(self).books@.len() && (#[trigger] old(self).books@[t]).id == id,
            forall|i: int| 0 <= i < old(self).books@.len() ==> (#[trigger] old(self).books@[i]).wf(),
            old(self).book_info.form.wf(),
        ensures
            final(self).wf(),
            selection_on_first_of(old(self).books@, final(self).selected, id),
            same_model_but_selection(*old(self), *final(self)),
    {
        let pos = self.get_table_position_by_id(id);
        match pos {
            Some(p) => {
                self.selected = Some(p);
            },
            None => {
                proof {
                    assert(false);
                }
            },
        }
    }

    /// Open the info pane on a blank form for a new record.
    pub fn enter_add_mode(&mut self)
        ensures
            final(self).focus == Focus::Info,
            final(self).book_info.mode == BookInfoMode::Add,
            final(self).book_info.form.is_blank(),
            final(self).book_info.form.wf(),
            final(self).book_info.cover is Absent,
            final(self).books == old(self).books,
            final(self).selected == old(self).selected,
            final(self).status == old(self).status,
            final(self).running_state == old(self).running_state,
            old(self).wf() ==> final(self).wf(),
    {
        self.focus = Focus::Info;
        self.book_info.mode = BookInfoMode::Add;
        self.book_info.form = BookForm::default();
        self.book_info.cover = CoverStatus::Absent;
    }

    /// Open the info pane on a form filled from the selected record; a
    /// no-op when nothing is selected.
    pub fn enter_edit_mode(&mut self)
        requires
            old(self).wf(),
        ensures
            final(self).wf(),
            old(self).selected matches Some(i) ==> ({
                &&& final(self).focus == Focus::Info
                &&& final(self).book_info.mode == BookInfoMode::Edit
                &&& form_filled_from(
                    final(self).book_info.form,
                    old(self).books@[i as int],
                )
                &&& final(self).book_info.cover == old(self).book_info.cover
            }),
            old(self).selected is None ==> *final(self) == *old(self),
            final(self).books == old(self).books,
            final(self).selected == old(self).selected,
            final(self).status == old(self).status,
            final(self).running_state == old(self).running_state,
    {
        match self.selected {
            Some(i) => {
                self.book_info.form = BookForm::from(&self.books[i]);
                self.focus = Focus::Info;
                self.book_info.mode = BookInfoMode::Edit;
            },
            None => (),
        }
    }

    /// Return to browsing: table focused, status clear, info pane viewing.
    pub fn enter_view_mode(&mut self)
        ensures
            final(self).focus == Focus::Table,
            final(self).status is Normal,
            final(self).book_info.mode == BookInfoMode::View,
            final(self).book_info.form == old(self).book_info.form,
            final(self).book_info.cover == old(self).book_info.cover,
            final(self).books == old(self).books,
            final(self).selected == old(self).selected,
            final(self).running_state == old(self).running_state,
            old(self).wf() ==> final(self).wf(),
    {
        self.focus = Focus::Table;
        self.status = StatusMode::Normal;
        self.book_info.mode = BookInfoMode::View;
    }

    /// Ask the user to confirm a delete in the status line.
    pub fn enter_confirm_mode(&mut self)
        ensures
            final(self).focus == Focus::Status,
            final(self).status is ConfirmDeleteBook,
            final(self).book_info == old(self).book_info,
            final(self).books == old(self).books,
            final(self).selected == old(self).selected,
            final(self).running_state == old(self).running_state,
            old(self).wf() ==> final(self).wf(),
    {
        self.focus = Focus::Status;
        self.status = StatusMode::ConfirmDeleteBook;
    }

    /// Errors are single-shot: any state-changing message first clears a
    /// stale one from the status line and the form.
    pub fn clear_error(&mut self)
        ensures
            final(self).status is Normal,
            final(self).book_info.form.error is None,
            final(self).book_info.form == (BookForm {
                error: None,
                ..old(self).book_info.form
            }),
            final(self).book_info.mode == old(self).book_info.mode,
            final(self).book_info.cover == old(self).book_info.cover,
            final(self).books == old(self).books,
            final(self).selected == old(self).selected,
            final(self).focus == old(self).focus,
            final(self).running_state == old(self).running_state,
            old(self).wf() ==> final(self).wf(),
    {
        self.book_info.form.clear_error();
        self.status = StatusMode::Normal;
    }

    fn request_cover(&mut self) -> (r: Option<usize>)
        ensures
            r == old(self).selected,
            old(self).selected is Some ==> final(self).book_info.cover is Loading,
            old(self).selected is None ==> final(self).book_info.cover == old(
                self,
            ).book_info.cover,
            final(self).books == old(self).books,
            final(self).selected == old(self).selected,
            final(self).book_info.mode == old(self).book_info.mode,
            final(self).book_info.form == old(self).book_info.form,
            final(self).status == old(self).status,
            final(self).focus == old(self).focus,
            final(self).running_state == old(self).running_state,
            old(self).wf() ==> final(self).wf(),
    {
        match self.selected {
            Some(i) => {
                self.book_info.cover = CoverStatus::Loading;
                Some(i)
            },
            None => None,
        }
    }

    /// Apply one message to the state and say what the dispatch loop
    /// should do next. Every message first wipes a stale error; messages
    /// that change durable content ask for a write; messages that land
    /// back on the table re-affirm the selected record's cover.
    #[verifier::rlimit(60)]
    #[verifier::spinoff_prover]
    pub fn update(&mut self, msg: Message) -> (out: UpdateOutcome)
        requires
            old(self).wf(),
        ensures
            final(self).wf(),
            (match msg {
                Message::Quit => {
                    &&& final(self).books == old(self).books
                    &&& final(self).selected == old(self).selected
                    &&& final(self).running_state == RunningState::Done
                    &&& final(self).status is Normal
                    &&& final(self).focus == old(self).focus
                    &&& final(self).book_info.mode == old(self).book_info.mode
                    &&& final(self).book_info.form == spec_cleared_form(old(self).book_info.form)
                    &&& final(self).book_info.cover == old(self).book_info.cover
                    &&& out.persist
                    &&& out.next is None
                    &&& out.cover_request is None
                },
                Message::NextBook => {
                    &&& final(self).books == old(self).books
                    &&& final(self).selected == spec_sel_next(
                        old(self).selected,
                        old(self).books@.len() as int,
                    )
                    &&& final(self).running_state == old(self).running_state
                    &&& final(self).status is Normal
                    &&& final(self).focus == old(self).focus
                    &&& final(self).book_info.mode == old(self).book_info.mode
                    &&& final(self).book_info.form == spec_cleared_form(old(self).book_info.form)
                    &&& cover_issued(*final(self), out, old(self).book_info.cover)
                    &&& out.persist
                    &&& out.next is None
                },
                Message::PreviousBook => {
                    &&& final(self).books == old(self).books
                    &&& final(self).selected == spec_sel_prev(old(self).selected)
                    &&& final(self).running_state == old(self).running_state
                    &&& final(self).status is Normal
                    &&& final(self).focus == old(self).focus
                    &&& final(self).book_info.mode == old(self).book_info.mode
                    &&& final(self).book_info.form == spec_cleared_form(old(self).book_info.form)
                    &&& cover_issued(*final(self), out, old(self).book_info.cover)
                    &&& out.persist
                    &&& out.next is None
                },
                Message::ConfirmDeleteBook => {
                    &&& final(self).books == old(self).books
                    &&& final(self).selected == old(self).selected
                    &&& final(self).running_state == old(self).running_state
                    &&& final(self).focus == Focus::Status
                    &&& final(self).status is ConfirmDeleteBook
                    &&& final(self).book_info.mode == old(self).book_info.mode
                    &&& final(self).book_info.form == spec_cleared_form(old(self).book_info.form)
                    &&& final(self).book_info.cover == old(self).book_info.cover
                    &&& no_effects(out)
                },
                Message::CancelConfirm => browse_return(*old(self), *final(self), out),
                Message::CancelForm => browse_return(*old(self), *final(self), out),
                Message::DeleteBook => {
                    &&& (old(self).selected is None ==> {
                        &&& final(self).books == old(self).books
                        &&& final(self).selected == old(self).selected
                        &&& final(self).running_state == old(self).running_state
                        &&& final(self).focus == old(self).focus
                        &&& final(self).status is Normal
                        &&& final(self).book_info.mode == old(self).book_info.mode
                        &&& final(self).book_info.form == spec_cleared_form(
                            old(self).book_info.form,
                        )
                        &&& final(self).book_info.cover == old(self).book_info.cover
                        &&& no_effects(out)
                    })
                    &&& (old(self).selected matches Some(idx) ==> {
                        &&& final(self).books@ == old(self).books@.remove(idx as int)
                        &&& final(self).selected == spec_sel_after_delete(
                            old(self).books@.len() as int,
                            idx as int,
                        )
                        &&& final(self).running_state == old(self).running_state
                        &&& final(self).focus == Focus::Table
                        &&& final(self).status is Normal
                        &&& final(self).book_info.mode == BookInfoMode::View
                        &&& final(self).book_info.form == spec_cleared_form(
                            old(self).book_info.form,
                        )
                        &&& cover_issued(*final(self), out, old(self).book_info.cover)
                        &&& out.persist
                        &&& out.next is None
                    })
                },
                Message::AddBook => {
                    &&& final(self).books == old(self).books
                    &&& final(self).selected == old(self).selected
                    &&& final(self).running_state == old(self).running_state
                    &&& final(self).focus == Focus::Info
                    &&& final(self).status is Normal
                    &&& final(self).book_info.mode == BookInfoMode::Add
                    &&& final(self).book_info.form.is_blank()
                    &&& final(self).book_info.cover is Absent
                    &&& no_effects(out)
                },
                Message::EditBook => {
                    &&& final(self).books == old(self).books
                    &&& final(self).selected == old(self).selected
                    &&& final(self).running_state == old(self).running_state
                    &&& final(self).status is Normal
                    &&& final(self).book_info.cover == old(self).book_info.cover
                    &&& no_effects(out)
                    &&& (old(self).selected matches Some(i) ==> {
                        &&& final(self).focus == Focus::Info
                        &&& final(self).book_info.mode == BookInfoMode::Edit
                        &&& form_filled_from(
                            final(self).book_info.form,
                            old(self).books@[i as int],
                        )
                    })
                    &&& (old(self).selected is None ==> {
                        &&& final(self).focus == old(self).focus
                        &&& final(self).book_info.mode == old(self).book_info.mode
                        &&& final(self).book_info.form == spec_cleared_form(
                            old(self).book_info.form,
                        )
                    })
                },
                Message::InsertChar(c) => {
                    &&& form_edit_frame(*old(self), *final(self), out)
                    &&& form_insert_rel(
                        spec_cleared_form(old(self).book_info.form),
                        final(self).book_info.form,
                        c,
                    )
                },
                Message::DeleteChar => {
                    &&& form_edit_frame(*old(self), *final(self), out)
                    &&& form_delete_rel(
                        spec_cleared_form(old(self).book_info.form),
                        final(self).book_info.form,
                    )
                },
                Message::FormLeft => {
                    &&& form_edit_frame(*old(self), *final(self), out)
                    &&& form_left_rel(
                        spec_cleared_form(old(self).book_info.form),
                        final(self).book_info.form,
                    )
                },
                Message::FormRight => {
                    &&& form_edit_frame(*old(self), *final(self), out)
                    &&& form_right_rel(
                        spec_cleared_form(old(self).book_info.form),
                        final(self).book_info.form,
                    )
                },
                Message::NextFormField => {
                    &&& form_edit_frame(*old(self), *final(self), out)
                    &&& form_retarget_rel(
                        spec_cleared_form(old(self).book_info.form),
                        final(self).book_info.form,
                        1,
                    )
                },
                Message::PreviousFormField => {
                    &&& form_edit_frame(*old(self), *final(self), out)
                    &&& form_retarget_rel(
                        spec_cleared_form(old(self).book_info.form),
                        final(self).book_info.form,
                        7,
                    )
                },
                Message::NewLineChar => {
                    &&& final(self).books == old(self).books
                    &&& final(self).selected == old(self).selected
                    &&& final(self).running_state == old(self).running_state
                    &&& final(self).focus == old(self).focus
                    &&& final(self).status is Normal
                    &&& final(self).book_info.mode == old(self).book_info.mode
                    &&& final(self).book_info.cover == old(self).book_info.cover
                    &&& !out.persist
                    &&& out.cover_request is None
                    &&& (old(self).book_info.form.active == FormField::Note ==> {
                        &&& form_insert_rel(
                            spec_cleared_form(old(self).book_info.form),
                            final(self).book_info.form,
                            '\n',
                        )
                        &&& out.next is None
                    })
                    &&& (old(self).book_info.form.active != FormField::Note ==> {
                        &&& final(self).book_info.form == spec_cleared_form(
                            old(self).book_info.form,
                        )
                        &&& out.next == Some(Message::SubmitForm)
                    })
                },
                Message::SubmitForm => {
                    let pre_form = old(self).book_info.form;
                    let ex = if old(self).book_info.mode == BookInfoMode::Edit && old(
                        self,
                    ).selected is Some {
                        Some(old(self).books@[old(self).selected->Some_0 as int])
                    } else {
                        None::<Book>
                    };
                    &&& final(self).running_state == old(self).running_state
                    &&& (!spec_form_valid(pre_form, ex) ==> {
                        &&& final(self).books == old(self).books
                        &&& final(self).selected == old(self).selected
                        &&& final(self).focus == old(self).focus
                        &&& final(self).book_info.mode == old(self).book_info.mode
                        &&& final(self).book_info.cover == old(self).book_info.cover
                        &&& (final(self).status matches StatusMode::Error(m) && m@ == spec_message(
                            spec_first_error(pre_form, ex),
                        ))
                        &&& (final(self).book_info.form.error matches Some(m) && m@ == spec_message(
                            spec_first_error(pre_form, ex),
                        ))
                        &&& form_same_but_error(pre_form, final(self).book_info.form)
                        &&& no_effects(out)
                    })
                    &&& (spec_form_valid(pre_form, ex) ==> {
                        &&& final(self).focus == Focus::Table
                        &&& final(self).status is Normal
                        &&& final(self).book_info.mode == BookInfoMode::View
                        &&& final(self).book_info.form == spec_cleared_form(pre_form)
                        &&& cover_issued(*final(self), out, old(self).book_info.cover)
                        &&& out.persist
                        &&& out.next is None
                        &&& (old(self).book_info.mode == BookInfoMode::Add ==> {
                            &&& final(self).books@.len() == old(self).books@.len() + 1
                            &&& books_sorted(final(self).books@)
                            &&& exists|b: Book|
                                #![trigger b.wf()]
                                {
                                    &&& spec_built_from(b, pre_form, ex)
                                    &&& final(self).books@.to_multiset() == old(
                                        self,
                                    ).books@.to_multiset().insert(b)
                                    &&& selection_on_first_of(
                                        final(self).books@,
                                        final(self).selected,
                                        b.id,
                                    )
                                }
                        })
                        &&& (old(self).book_info.mode == BookInfoMode::Edit ==> (old(
                            self,
                        ).selected matches Some(i) ==> {
                            &&& final(self).books@.len() == old(self).books@.len()
                            &&& books_sorted(final(self).books@)
                            &&& exists|b: Book|
                                #![trigger b.wf()]
                                {
                                    &&& spec_built_from(b, pre_form, ex)
                                    &&& final(self).books@.to_multiset() == old(
                                        self,
                                    ).books@.to_multiset().remove(
                                        old(self).books@[i as int],
                                    ).insert(
                                        (Book { id: old(self).books@[i as int].id, ..b }),
                                    )
                                    &&& selection_on_first_of(
                                        final(self).books@,
                                        final(self).selected,
                                        old(self).books@[i as int].id,
                                    )
                                }
                        }))
                        &&& ((old(self).book_info.mode == BookInfoMode::View || (old(
                            self,
                        ).book_info.mode == BookInfoMode::Edit && old(self).selected is None))
                            ==> {
                            &&& final(self).books == old(self).books
                            &&& final(self).selected == old(self).selected
                        })
                    })
                },
            }),
    {
        self.clear_error();
        match msg {
            Message::Quit => {
                self.running_state = RunningState::Done;
                UpdateOutcome { next: None, persist: true, cover_request: None }
            },
            Message::NextBook => {
                self.select_next_book();
                let req = self.request_cover();
                UpdateOutcome { next: None, persist: true, cover_request: req }
            },
            Message::PreviousBook => {
                self.select_previous_book();
                let req = self.request_cover();
                UpdateOutcome { next: None, persist: true, cover_request: req }
            },
            Message::ConfirmDeleteBook => {
                self.enter_confirm_mode();
                UpdateOutcome { next: None, persist: false, cover_request: None }
            },
            Message::CancelConfirm => {
                self.enter_view_mode();
                let req = self.request_cover();
                UpdateOutcome { next: None, persist: false, cover_request: req }
            },
            Message::CancelForm => {
                self.enter_view_mode();
                let req = self.request_cover();
                UpdateOutcome { next: None, persist: false, cover_request: req }
            },
            Message::DeleteBook => {
                match self.selected {
                    Some(idx) => {
                        self.delete_book(idx);
                        self.enter_view_mode();
                        let req = self.request_cover();
                        UpdateOutcome { next: None, persist: true, cover_request: req }
                    },
                    None => UpdateOutcome { next: None, persist: false, cover_request: None },
                }
            },
            Message::AddBook => {
                self.enter_add_mode();
                UpdateOutcome { next: None, persist: false, cover_request: None }
            },
            Message::EditBook => {
                self.enter_edit_mode();
                UpdateOutcome { next: None, persist: false, cover_request: None }
            },
            Message::InsertChar(c) => {
                self.book_info.form.insert_char(c);
                UpdateOutcome { next: None, persist: false, cover_request: None }
            },
            Message::DeleteChar => {
                self.book_info.form.delete_char();
                UpdateOutcome { next: None, persist: false, cover_request: None }
            },
            Message::FormLeft => {
                match self.book_info.form.active {
                    FormField::ReadingStatus => self.book_info.form.decrease_reading_status(),
                    FormField::Rating => self.book_info.form.decrease_rating(),
                    _ => self.book_info.form.move_cursor_left(),
                }
                UpdateOutcome { next: None, persist: false, cover_request: None }
            },
            Message::FormRight => {
                match self.book_info.form.active {
                    FormField::ReadingStatus => self.book_info.form.increase_reading_status(),
                    FormField::Rating => self.book_info.form.increase_rating(),
                    _ => self.book_info.form.move_cursor_right(),
                }
                UpdateOutcome { next: None, persist: false, cover_request: None }
            },
            Message::NextFormField => {
                self.book_info.form.next_field();
                UpdateOutcome { next: None, persist: false, cover_request: None }
            },
            Message::PreviousFormField => {
                self.book_info.form.previous_field();
                UpdateOutcome { next: None, persist: false, cover_request: None }
            },
            Message::NewLineChar => {
                match self.book_info.form.active {
                    FormField::Note => {
                        self.book_info.form.insert_char('\n');
                        UpdateOutcome { next: None, persist: false, cover_request: None }
                    },
                    _ => UpdateOutcome {
                        next: Some(Message::SubmitForm),
                        persist: false,
                        cover_request: None,
                    },
                }
            },
            Message::SubmitForm => self.submit_form(),
        }
    }

    #[verifier::rlimit(60)]
    #[verifier::spinoff_prover]
    fn submit_form(&mut self) -> (out: UpdateOutcome)
        requires
            old(self).wf(),
            old(self).status is Normal,
            old(self).book_info.form.error is None,
        ensures
            final(self).wf(),
            final(self).running_state == old(self).running_state,
            ({
                let pre_form = old(self).book_info.form;
                let ex = if old(self).book_info.mode == BookInfoMode::Edit && old(
                    self,
                ).selected is Some {
                    Some(old(self).books@[old(self).selected->Some_0 as int])
                } else {
                    None::<Book>
                };
                &&& (!spec_form_valid(pre_form, ex) ==> {
                    &&& final(self).books == old(self).books
                    &&& final(self).selected == old(self).selected
                    &&& final(self).focus == old(self).focus
                    &&& final(self).book_info.mode == old(self).book_info.mode
                    &&& final(self).book_info.cover == old(self).book_info.cover
                    &&& (final(self).status matches StatusMode::Error(m) && m@ == spec_message(
                        spec_first_error(pre_form, ex),
                    ))
                    &&& (final(self).book_info.form.error matches Some(m) && m@ == spec_message(
                        spec_first_error(pre_form, ex),
                    ))
                    &&& form_same_but_error(pre_form, final(self).book_info.form)
                    &&& no_effects(out)
                })
                &&& (spec_form_valid(pre_form, ex) ==> {
                    &&& final(self).focus == Focus::Table
                    &&& final(self).status is Normal
                    &&& final(self).book_info.mode == BookInfoMode::View
                    &&& final(self).book_info.form == spec_cleared_form(pre_form)
                    &&& cover_issued(*final(self), out, old(self).book_info.cover)
                    &&& out.persist
                    &&& out.next is None
                    &&& (old(self).book_info.mode == BookInfoMode::Add ==> {
                        &&& final(self).books@.len() == old(self).books@.len() + 1
                        &&& books_sorted(final(self).books@)
                        &&& exists|b: Book|
                            #![trigger b.wf()]
                            {
                                &&& spec_built_from(b, pre_form, ex)
                                &&& final(self).books@.to_multiset() == old(
                                    self,
                                ).books@.to_multiset().insert(b)
                                &&& selection_on_first_of(
                                    final(self).books@,
                                    final(self).selected,
                                    b.id,
                                )
                            }
                    })
                    &&& (old(self).book_info.mode == BookInfoMode::Edit ==> (old(
                        self,
                    ).selected matches Some(i) ==> {
                        &&& final(self).books@.len() == old(self).books@.len()
                        &&& books_sorted(final(self).books@)
                        &&& exists|b: Book|
                            #![trigger b.wf()]
                            {
                                &&& spec_built_from(b, pre_form, ex)
                                &&& final(self).books@.to_multiset() == old(
                                    self,
                                ).books@.to_multiset().remove(old(self).books@[i as int]).insert(
                                    (Book { id: old(self).books@[i as int].id, ..b }),
                                )
                                &&& selection_on_first_of(
                                    final(self).books@,
                                    final(self).selected,
                                    old(self).books@[i as int].id,
                                )
                            }
                    }))
                    &&& ((old(self).book_info.mode == BookInfoMode::View || (old(
                        self,
                    ).book_info.mode == BookInfoMode::Edit && old(self).selected is None)) ==> {
                        &&& final(self).books == old(self).books
                        &&& final(self).selected == old(self).selected
                    })
                })
            }),
    {
        let is_edit = matches!(self.book_info.mode, BookInfoMode::Edit);
        let existing: Option<&Book> = if is_edit {
            match self.selected {
                Some(i) => Some(&self.books[i]),
                None => None,
            }
        } else {
            None
        };
        let res = Book::from(&self.book_info.form, existing);
        match res {
            Ok(book) => {
                let ghost gb = book;
                match self.book_info.mode {
                    BookInfoMode::Add => {
                        self.add_book(book);
                    },
                    BookInfoMode::Edit => {
                        match self.selected {
                            Some(_) => {
                                self.update_book(book);
                            },
                            None => (),
                        }
                    },
                    BookInfoMode::View => (),
                }
                self.enter_view_mode();
                let req = self.request_cover();
                proof {
                    let pre_form = old(self).book_info.form;
                    let ex = if old(self).book_info.mode == BookInfoMode::Edit && old(
                        self,
                    ).selected is Some {
                        Some(old(self).books@[old(self).selected->Some_0 as int])
                    } else {
                        None::<Book>
                    };
                    assert(spec_built_from(gb, pre_form, ex));
                    assert(gb.wf());
                    if old(self).book_info.mode == BookInfoMode::Add {
                        assert(self.books@.to_multiset() == old(self).books@.to_multiset().insert(
                            gb,
                        ));
                        assert(selection_on_first_of(self.books@, self.selected, gb.id));
                    } else if old(self).book_info.mode == BookInfoMode::Edit && old(
                        self,
                    ).selected is Some {
                        let i = old(self).selected->Some_0;
                        assert(self.books@.to_multiset() == old(self).books@.to_multiset().remove(
                            old(self).books@[i as int],
                        ).insert((Book { id: old(self).books@[i as int].id, ..gb })));
                        assert(selection_on_first_of(
                            self.books@,
                            self.selected,
                            old(self).books@[i as int].id,
                        ));
                    }
                }
                UpdateOutcome { next: None, persist: true, cover_request: req }
            },
            Err(e) => {
                self.book_info.form.error = Some(e.message());
                self.status = StatusMode::Error(e.message());
                UpdateOutcome { next: None, persist: false, cover_request: None }
            },
        }
    }

    /// Number of records with at least one recorded completion.
    pub fn books_read(&self) -> (r: usize)
        ensures
            r == spec_books_read(self.books@),
    {
        let mut count: usize = 0;
        let mut i: usize = 0;
        while i < self.books.len()
            invariant
                0 <= i <= self.books@.len(),
                count <= i,
                count == spec_books_read(self.books@.take(i as int)),
            decreases self.books@.len() - i,
        {
            proof {
                assert(self.books@.take(i + 1).drop_last() =~= self.books@.take(i as int));
                assert(self.books@.take(i + 1).last() == self.books@[i as int]);
            }
            if self.books[i].finished_at.len() > 0 {
                count = count + 1;
            }
            i = i + 1;
        }
        proof {
            assert(self.books@.take(self.books@.len() as int) =~= self.books@);
        }
        count
    }

    /// Number of records whose status is `Reading`.
    pub fn books_reading(&self) -> (r: usize)
        ensures
            r == spec_books_with_status(self.books@, ReadingStatus::Reading),
    {
        self.count_with_status(ReadingStatus::Reading)
    }

    /// Number of records whose status is `ToRead`.
    pub fn books_to_read(&self) -> (r: usize)
        ensures
            r == spec_books_with_status(self.books@, ReadingStatus::ToRead),
    {
        self.count_with_status(ReadingStatus::ToRead)
    }

    fn count_with_status(&self, st: ReadingStatus) -> (r: usize)
        ensures
            r == spec_books_with_status(self.books@, st),
    {
        let mut count: usize = 0;
        let mut i: usize = 0;
        while i < self.books.len()
            invariant
                0 <= i <= self.books@.len(),
                count <= i,
                count == spec_books_with_status(self.books@.take(i as int), st),
            decreases self.books@.len() - i,
        {
            proof {
                assert(self.books@.take(i + 1).drop_last() =~= self.books@.take(i as int));
                assert(self.books@.take(i + 1).last() == self.books@[i as int]);
            }
            if self.books[i].reading_status.index() == st.index() {
                proof {
                    assert(self.books@[i as int].reading_status == st);
                }
                count = count + 1;
            } else {
                proof {
                    assert(self.books@[i as int].reading_status != st);
                }
            }
            i = i + 1;
        }
        proof {
            assert(self.books@.take(self.books@.len() as int) =~= self.books@);
        }
        count
    }

    /// Number of completions recorded in year `year`, over all records.
    pub fn books_read_in_year(&self, year: u16) -> (r: usize)
        requires
            spec_books_read_in_year(self.books@, year) <= usize::MAX,
        ensures
            r == spec_books_read_in_year(self.books@, year),
    {
        let mut count: usize = 0;
        let mut i: usize = 0;
        while i < self.books.len()
            invariant
                0 <= i <= self.books@.len(),
                spec_books_read_in_year(self.books@, year) <= usize::MAX,
                count == spec_books_read_in_year(self.books@.take(i as int), year),
            decreases self.books@.len() - i,
        {
            proof {
                assert(self.books@.take(i + 1).drop_last() =~= self.books@.take(i as int));
                assert(self.books@.take(i + 1).last() == self.books@[i as int]);
                lemma_read_in_year_prefix(self.books@, year, i + 1);
                lemma_read_in_year_prefix(self.books@, year, i as int);
            }
            let c = dates_in_year(&self.books[i].finished_at, year);
            count = count + c;
            i = i + 1;
        }
        proof {
            assert(self.books@.take(self.books@.len() as int) =~= self.books@);
        }
        count
    }

    /// Pages read in year `year`: each record's page count once per
    /// completion recorded in that year.
    pub fn pages_read_in_year(&self, year: u16) -> (r: usize)
        requires
            spec_pages_read_in_year(self.books@, year) <= usize::MAX,
        ensures
            r == spec_pages_read_in_year(self.books@, year),
    {
        let mut total: usize = 0;
        let mut i: usize = 0;
        while i < self.books.len()
            invariant
                0 <= i <= self.books@.len(),
                spec_pages_read_in_year(self.books@, year) <= usize::MAX,
                total == spec_pages_read_in_year(self.books@.take(i as int), year),
            decreases self.books@.len() - i,
        {
            proof {
                assert(self.books@.take(i + 1).drop_last() =~= self.books@.take(i as int));
                assert(self.books@.take(i + 1).last() == self.books@[i as int]);
                lemma_read_in_year_prefix(self.books@, year, i + 1);
                lemma_read_in_year_prefix(self.books@, year, i as int);
                lemma_dates_in_year_bounds(self.books@[i as int]@.finished_at, year);
            }
            let c = dates_in_year(&self.books[i].finished_at, year);
            let pages = self.books[i].pages as usize;
            total = total + pages * c;
            i = i + 1;
        }
        proof {
            assert(self.books@.take(self.books@.len() as int) =~= self.books@);
        }
        total
    }

    /// Number of distinct author names over all records.
    pub fn unique_authors(&self) -> (r: usize)
        ensures
            r == all_authors(self.books@).to_set().len(),
    {
        let mut seen: Vec<String> = Vec::new();
        let mut i: usize = 0;
        while i < self.books.len()
            invariant
                0 <= i <= self.books@.len(),
                str_views(seen@).no_duplicates(),
                str_views(seen@).to_set() == all_authors(self.books@.take(i as int)).to_set(),
            decreases self.books@.len() - i,
        {
            let ghost outer_set = all_authors(self.books@.take(i as int));
            let book = &self.books[i];
            let mut j: usize = 0;
            while j < book.authors.len()
                invariant
                    0 <= j <= book.authors@.len(),
                    *book == self.books@[i as int],
                    0 <= i < self.books@.len(),
                    outer_set == all_authors(self.books@.take(i as int)),
                    str_views(seen@).no_duplicates(),
                    str_views(seen@).to_set() == (outer_set + book@.authors.take(j as int)).to_set(),
                decreases book.authors@.len() - j,
            {
                let a = &book.authors[j];
                let ghost pre_views = str_views(seen@);
                let found = contains_str(&seen, a);
                if !found {
                    seen.push(String::from_str(a.as_str()));
                }
                proof {
                    broadcast use Seq::lemma_push_to_set_commute;

                    let base = outer_set + book@.authors.take(j as int);
                    assert(base.push(book@.authors[j as int]) =~= outer_set + book@.authors.take(
                        j + 1,
                    ));
                    if found {
                        assert(pre_views.to_set().contains(a@));
                        assert(base.to_set().insert(a@) =~= base.to_set());
                    } else {
                        assert(str_views(seen@) =~= pre_views.push(a@));
                        assert(str_views(seen@).to_set() =~= pre_views.to_set().insert(a@));
                        assert(!pre_views.contains(a@));
                    }
                    assert((outer_set + book@.authors.take(j + 1)).to_set() =~= base.to_set().insert(
                        book@.authors[j as int],
                    ));
                }
                j = j + 1;
            }
            proof {
                assert(book@.authors.take(book.authors@.len() as int) =~= book@.authors);
                assert(all_authors(self.books@.take(i + 1)) =~= outer_set + book@.authors) by {
                    assert(self.books@.take(i + 1).drop_last() =~= self.books@.take(i as int));
                    assert(self.books@.take(i + 1).last() == self.books@[i as int]);
                }
            }
            i = i + 1;
        }
        proof {
            assert(self.books@.take(self.books@.len() as int) =~= self.books@);
            str_views(seen@).unique_seq_to_set();
        }
        seen.len()
    }
}

fn dates_in_year(ds: &Vec<Date>, y: u16) -> (r: usize)
    ensures
        r == spec_dates_in_year(ds@, y),
{
    let mut count: usize = 0;
    let mut i: usize = 0;
    while i < ds.len()
        invariant
            0 <= i <= ds@.len(),
            count <= i,
            count == spec_dates_in_year(ds@.take(i as int), y),
        decreases ds@.len() - i,
    {
        proof {
            assert(ds@.take(i + 1).drop_last() =~= ds@.take(i as int));
            assert(ds@.take(i + 1).last() == ds@[i as int]);
        }
        if ds[i].year == y {
            count = count + 1;
        }
        i = i + 1;
    }
    proof {
        assert(ds@.take(ds@.len() as int) =~= ds@);
    }
    count
}

fn contains_str(seen: &Vec<String>, a: &String) -> (r: bool)
    ensures
        r == str_views(seen@).contains(a@),
{
    let mut i: usize = 0;
    while i < seen.len()
        invariant
            0 <= i <= seen@.len(),
            forall|t: int| 0 <= t < i ==> str_views(seen@)[t] != a@,
        decreases seen@.len() - i,
    {
        if seen[i].eq(a) {
            proof {
                assert(str_views(seen@)[i as int] == a@);
            }
            return true;
        }
        i = i + 1;
    }
    proof {
        assert(forall|t: int| 0 <= t < str_views(seen@).len() ==> str_views(seen@)[t] != a@);
    }
    false
}

/// The form with a stale error wiped.
pub open spec fn spec_cleared_form(f: BookForm) -> BookForm {
    BookForm { error: None, ..f }
}

/// The cursor after a step down the table: one row further, stopping at
/// the last row.
pub open spec fn spec_sel_next(sel: Option<usize>, len: int) -> Option<usize> {
    match sel {
        Some(i) => if i + 1 < len {
            Some((i + 1) as usize)
        } else {
            Some(i)
        },
        None => None,
    }
}

/// The cursor after a step up the table: one row back, stopping at the
/// first row.
pub open spec fn spec_sel_prev(sel: Option<usize>) -> Option<usize> {
    match sel {
        Some(i) => if i > 0 {
            Some((i - 1) as usize)
        } else {
            Some(i)
        },
        None => None,
    }
}

/// The cursor after deleting row `idx` of `len` rows: cleared when the
/// collection empties, stepped back when the last row went, else in place.
pub open spec fn spec_sel_after_delete(len: int, idx: int) -> Option<usize> {
    if len == 1 {
        None
    } else if idx == len - 1 {
        Some((idx - 1) as usize)
    } else {
        Some(idx as usize)
    }
}

/// A cover load was issued for the selection, if there is one: the cover
/// is `Loading` and the request names the selected row; with no selection
/// the cover is untouched and nothing is requested.
pub open spec fn cover_issued(post: Model, out: UpdateOutcome, pre_cover: CoverStatus) -> bool {
    &&& out.cover_request == post.selected
    &&& (post.selected is Some ==> post.book_info.cover is Loading)
    &&& (post.selected is None ==> post.book_info.cover == pre_cover)
}

/// The message had no outward effect: no follow-up, no write, no cover
/// request.
pub open spec fn no_effects(out: UpdateOutcome) -> bool {
    &&& out.next is None
    &&& !out.persist
    &&& out.cover_request is None
}

/// The shape of a return to browsing: table focused, status clear, info
/// pane viewing, records and selection untouched, a cover load issued for
/// the selection.
pub open spec fn browse_return(pre: Model, post: Model, out: UpdateOutcome) -> bool {
    &&& post.books == pre.books
    &&& post.selected == pre.selected
    &&& post.running_state == pre.running_state
    &&& post.focus == Focus::Table
    &&& post.status is Normal
    &&& post.book_info.mode == BookInfoMode::View
    &&& post.book_info.form == spec_cleared_form(pre.book_info.form)
    &&& cover_issued(post, out, pre.book_info.cover)
    &&& !out.persist
    &&& out.next is None
}

/// The shape of a pure form edit: only the form (already cleared of any
/// stale error) changed, nothing was requested of the outside.
pub open spec fn form_edit_frame(pre: Model, post: Model, out: UpdateOutcome) -> bool {
    &&& post.books == pre.books
    &&& post.selected == pre.selected
    &&& post.running_state == pre.running_state
    &&& post.focus == pre.focus
    &&& post.status is Normal
    &&& post.book_info.mode == pre.book_info.mode
    &&& post.book_info.cover == pre.book_info.cover
    &&& no_effects(out)
}

/// Number of records with at least one recorded completion.
pub open spec fn spec_books_read(s: Seq<Book>) -> int
    decreases s.len(),
{
    if s.len() == 0 {
        0
    } else {
        spec_books_read(s.drop_last()) + if s.last()@.finished_at.len() > 0 {
            1int
        } else {
            0int
        }
    }
}

/// Number of records in the given reading status.
pub open spec fn spec_books_with_status(s: Seq<Book>, st: ReadingStatus) -> int
    decreases s.len(),
{
    if s.len() == 0 {
        0
    } else {
        spec_books_with_status(s.drop_last(), st) + if s.last().reading_status == st {
            1int
        } else {
            0int
        }
    }
}

/// Number of the dates that fall in year `y`.
pub open spec fn spec_dates_in_year(ds: Seq<Date>, y: u16) -> int
    decreases ds.len(),
{
    if ds.len() == 0 {
        0
    } else {
        spec_dates_in_year(ds.drop_last(), y) + if ds.last().year == y {
            1int
        } else {
            0int
        }
    }
}

/// Number of completions recorded in year `y`, over all records.
pub open spec fn spec_books_read_in_year(s: Seq<Book>, y: u16) -> int
    decreases s.len(),
{
    if s.len() == 0 {
        0
    } else {
        spec_books_read_in_year(s.drop_last(), y) + spec_dates_in_year(s.last()@.finished_at, y)
    }
}

/// Pages read in year `y`: each record's page count once per completion
/// recorded in that year.
pub open spec fn spec_pages_read_in_year(s: Seq<Book>, y: u16) -> int
    decreases s.len(),
{
    if s.len() == 0 {
        0
    } else {
        spec_pages_read_in_year(s.drop_last(), y) + s.last().pages * spec_dates_in_year(
            s.last()@.finished_at,
            y,
        )
    }
}

/// Every author of every record, in order, repeats included.
pub open spec fn all_authors(s: Seq<Book>) -> Seq<Seq<char>>
    decreases s.len(),
{
    if s.len() == 0 {
        Seq::empty()
    } else {
        all_authors(s.drop_last()) + s.last()@.authors
    }
}

proof fn lemma_dates_in_year_bounds(ds: Seq<Date>, y: u16)
    ensures
        0 <= spec_dates_in_year(ds, y) <= ds.len(),
    decreases ds.len(),
{
    if ds.len() > 0 {
        lemma_dates_in_year_bounds(ds.drop_last(), y);
    }
}

proof fn lemma_read_in_year_prefix(s: Seq<Book>, y: u16, i: int)
    requires
        0 <= i <= s.len(),
    ensures
        0 <= spec_books_read_in_year(s.take(i), y) <= spec_books_read_in_year(s, y),
        0 <= spec_pages_read_in_year(s.take(i), y) <= spec_pages_read_in_year(s, y),
    decreases s.len() - i,
{
    if i == s.len() {
        assert(s.take(i) =~= s);
        lemma_read_in_year_nonneg(s, y);
    } else {
        lemma_read_in_year_prefix(s, y, i + 1);
        assert(s.take(i + 1).drop_last() =~= s.take(i));
        assert(s.take(i + 1).last() == s[i]);
        lemma_dates_in_year_bounds(s[i]@.finished_at, y);
        lemma_read_in_year_nonneg(s.take(i), y);
        assert(spec_books_read_in_year(s.take(i + 1), y) == spec_books_read_in_year(s.take(i), y)
            + spec_dates_in_year(s[i]@.finished_at, y));
        assert(spec_pages_read_in_year(s.take(i + 1), y) == spec_pages_read_in_year(s.take(i), y)
            + s[i].pages * spec_dates_in_year(s[i]@.finished_at, y));
    }
}

proof fn lemma_read_in_year_nonneg(s: Seq<Book>, y: u16)
    ensures
        spec_books_read_in_year(s, y) >= 0,
        spec_pages_read_in_year(s, y) >= 0,
    decreases s.len(),
{
    if s.len() > 0 {
        lemma_read_in_year_nonneg(s.drop_last(), y);
        lemma_dates_in_year_bounds(s.last()@.finished_at, y);
    }
}

/// Everything of the model except the records and the selection is
/// unchanged.
pub open spec fn same_model_but_books(pre: Model, post: Model) -> bool {
    &&& post.book_info.mode == pre.book_info.mode
    &&& post.book_info.form == pre.book_info.form
    &&& post.book_info.cover == pre.book_info.cover
    &&& post.status == pre.status
    &&& post.focus == pre.focus
    &&& post.running_state == pre.running_state
}

/// The cursor sits on the first record of `s` carrying `id`.
pub open spec fn selection_on_first_of(s: Seq<Book>, selected: Option<usize>, id: BookId) -> bool {
    &&& selected matches Some(i)
    &&& i < s.len()
    &&& s[selected->Some_0 as int].id == id
    &&& forall|t: int| 0 <= t < selected->Some_0 ==> s[t].id != id
}

/// Law: the selection cursor is `None` exactly when the collection is
/// empty, and otherwise a valid index. `Model::from` establishes `wf` and
/// every operation's contract carries it from `old` to `final`, so the
/// invariant holds after any sequence of inserts, updates, deletes and
/// selection moves.
pub proof fn lemma_selection_invariant(m: Model)
    requires
        m.wf(),
    ensures
        m.selected is None <==> m.books@.len() == 0,
        m.selected matches Some(i) ==> i < m.books@.len(),
{
}

/// Law: the collection's order is by normalized title alone — any two rows
/// of a sorted collection compare by their lower-cased, article-stripped
/// titles, never by the raw title or any other field.
pub proof fn lemma_order_is_by_normalized_title(s: Seq<Book>, i: int, j: int)
    requires
        books_sorted(s),
        0 <= i < j < s.len(),
    ensures
        lex_le(spec_title_normalized(s[i].title@), spec_title_normalized(s[j].title@)),
{
    assert(book_le(s[i], s[j]));
}

/// Law: inserting a record whose id no existing record carries and then
/// locating it by that id yields the inserted record itself, wherever the
/// sort placed it.
pub proof fn lemma_insert_then_locate(pre: Model, post: Model, book: Book)
    requires
        forall|t: int| 0 <= t < pre.books@.len() ==> (#[trigger] pre.books@[t]).id != book.id,
        post.books@.to_multiset() == pre.books@.to_multiset().insert(book),
        selection_on_first_of(post.books@, post.selected, book.id),
    ensures
        post.selected matches Some(i) && post.books@[i as int] == book,
{
    broadcast use group_to_multiset_ensures, group_multiset_axioms;

    let i = post.selected->Some_0;
    let b = post.books@[i as int];
    assert(post.books@.contains(b));
    assert(post.books@.to_multiset().count(b) > 0);
    if b != book {
        assert(pre.books@.to_multiset().count(b) > 0);
        assert(pre.books@.contains(b));
        let t = choose|t: int| 0 <= t < pre.books@.len() && pre.books@[t] == b;
        assert(pre.books@[t].id != book.id);
        assert(false);
    }
}

/// Law: restoring a snapshot reproduces an equal ordered record list and
/// the same selected row. `s` is a snapshot of the well-formed model `m`
/// (as `snapshot` promises) and `m2` a model restored from `s` (as
/// `Model::from` promises).
pub proof fn lemma_snapshot_restore_round_trip(m: Model, s: SavedState, m2: Model)
    requires
        m.wf(),
        s.books@.len() == m.books@.len(),
        forall|i: int| 0 <= i < s.books@.len() ==> (#[trigger] s.books@[i])@ == m.books@[i]@,
        s.selected == m.selected,
        m2.books@ == s.books@,
        m2.selected == spec_clamped_selection(s.selected, s.books@.len() as int),
    ensures
        m2.books@.len() == m.books@.len(),
        forall|i: int| 0 <= i < m2.books@.len() ==> (#[trigger] m2.books@[i])@ == m.books@[i]@,
        m2.selected == m.selected,
{
}

proof fn lemma_wf_all_from_multiset(pre: Seq<Book>, post: Seq<Book>, extra: Book)
    requires
        forall|i: int| 0 <= i < pre.len() ==> (#[trigger] pre[i]).wf(),
        extra.wf(),
        forall|b: Book|
            post.to_multiset().count(b) > 0 ==> pre.to_multiset().count(b) > 0 || b == extra,
    ensures
        forall|i: int| 0 <= i < post.len() ==> (#[trigger] post[i]).wf(),
{
    broadcast use group_to_multiset_ensures, group_multiset_axioms;

    assert forall|i: int| 0 <= i < post.len() implies (#[trigger] post[i]).wf() by {
        let b = post[i];
        assert(post.contains(b));
        assert(post.to_multiset().count(b) > 0);
        if b != extra {
            assert(pre.to_multiset().count(b) > 0);
            assert(pre.contains(b));
            let w = choose|w: int| 0 <= w < pre.len() && pre[w] == b;
            assert(pre[w].wf());
        }
    }
}

/// Everything of the model except the selection cursor is unchanged.
pub open spec fn same_model_but_selection(pre: Model, post: Model) -> bool {
    &&& post.books == pre.books
    &&& post.book_info.mode == pre.book_info.mode
    &&& post.book_info.form == pre.book_info.form
    &&& post.book_info.cover == pre.book_info.cover
    &&& post.status == pre.status
    &&& post.focus == pre.focus
    &&& post.running_state == pre.running_state
}

/// The restored cursor: clamped into range, `None` exactly for an empty
/// collection.
pub open spec fn spec_clamped_selection(saved: Option<usize>, len: int) -> Option<usize> {
    if len == 0 {
        None
    } else {
        match saved {
            Some(i) => if i < len {
                Some(i)
            } else {
                Some((len - 1) as usize)
            },
            None => Some(0usize),
        }
    }
}

} // verus!
