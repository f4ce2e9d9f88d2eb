//! The validated book record: identity, bibliographic fields, reading
//! history, and the normalized title that orders the collection.

use vstd::prelude::*;
use vstd::string::*;
use crate::book_form::BookForm;
use crate::date::{date_lt, is_date_string, parse_date, spec_date_of, Date};
use crate::reading_status::ReadingStatus;
use crate::util::{
    char_is_whitespace, dec_value, is_u16_numeral, is_unicode_whitespace, parse_u16, push_char,
    str_trim, trimmed, unsigned_digits,
};

verus! {

/// Lowest rating a record can carry.
pub const MIN_RATING: u8 = 1;

/// Highest rating a record can carry.
pub const MAX_RATING: u8 = 5;

/// Rating of a fresh form: the middle of the range.
pub const DEFAULT_RATING: u8 = 3;

/// Stable identity of a record, assigned once at creation.
#[derive(Clone, Copy, Debug, PartialEq, Eq, Hash, Structural)]
pub struct BookId(pub u128);

/// Relies on `uuid::Uuid::new_v4` and `Uuid::as_u128`: a randomly generated
/// identifier; nothing is promised of the value.
#[verifier::external_body]
pub(crate) fn fresh_id() -> BookId {
    BookId(uuid::Uuid::new_v4().as_u128())
}

/// The case-folded form of a character sequence.
pub uninterp spec fn lower_of(s: Seq<char>) -> Seq<char>;

/// Relies on `str::to_lowercase`: the result depends on the characters of
/// the input alone.
#[verifier::external_body]
fn to_lowercase_str(s: &str) -> (r: String)
    ensures
        r@ == lower_of(s@),
{
    s.to_lowercase()
}

/// The character sequences of a vector of strings.
pub open spec fn str_views(v: Seq<String>) -> Seq<Seq<char>> {
    v.map_values(|a: String| a@)
}

/// Spec-level shape of a book record.
pub ghost struct BookView {
    pub id: BookId,
    pub title: Seq<char>,
    pub authors: Seq<Seq<char>>,
    pub year: u16,
    pub pages: u16,
    pub reading_status: ReadingStatus,
    pub finished_at: Seq<Date>,
    pub rating: u8,
    pub note: Seq<char>,
    pub cover_path: Option<Seq<char>>,
}

/// A book of the catalog.
#[derive(Debug, Clone)]
pub struct Book {
    pub id: BookId,
    pub title: String,
    pub authors: Vec<String>,
    pub year: u16,
    pub pages: u16,
    pub reading_status: ReadingStatus,
    pub finished_at: Vec<Date>,
    pub rating: u8,
    pub note: String,
    pub cover_path: Option<String>,
}

impl View for Book {
    type V = BookView;

    open spec fn view(&self) -> BookView {
        BookView {
            id: self.id,
            title: self.title@,
            authors: str_views(self.authors@),
            year: self.year,
            pages: self.pages,
            reading_status: self.reading_status,
            finished_at: self.finished_at@,
            rating: self.rating,
            note: self.note@,
            cover_path: match self.cover_path {
                Some(p) => Some(p@),
                None => None,
            },
        }
    }
}

/// Whether the completion-date field blocks validation: it is non-blank and
/// a day of the calendar, the submit edits a record with a recorded history,
/// and the new date is not strictly after the latest recorded one.
pub open spec fn date_order_fails(dt: Seq<char>, existing: Option<BookView>) -> bool {
    &&& dt.len() > 0
    &&& is_date_string(dt)
    &&& existing matches Some(e) && e.finished_at.len() > 0 && !date_lt(
        e.finished_at.last(),
        spec_date_of(dt),
    )
}

/// The completion history of the record a successful submit builds.
pub open spec fn new_history(dt: Seq<char>, existing: Option<BookView>) -> Seq<Date> {
    if dt.len() == 0 {
        Seq::<Date>::empty()
    } else if existing matches Some(e) && e.finished_at.len() > 0 {
        existing->Some_0.finished_at.push(spec_date_of(dt))
    } else {
        seq![spec_date_of(dt)]
    }
}

/// All validation checks pass on this form, against `ex` when editing.
pub open spec fn spec_form_valid(form: BookForm, ex: Option<Book>) -> bool {
    let title = trimmed(form.title.text@);
    let yr = trimmed(form.year.text@);
    let pg = trimmed(form.pages.text@);
    let dt = trimmed(form.finished_at.text@);
    let exv = match ex {
        Some(e) => Some(e@),
        None => None,
    };
    &&& title.len() > 0
    &&& is_u16_numeral(yr)
    &&& is_u16_numeral(pg)
    &&& (dt.len() == 0 || is_date_string(dt))
    &&& !date_order_fails(dt, exv)
    &&& spec_authors(form.authors.text@).len() > 0
}

/// The first validation check that fails, in the order the checks run.
pub open spec fn spec_first_error(form: BookForm, ex: Option<Book>) -> ValidationError {
    let title = trimmed(form.title.text@);
    let yr = trimmed(form.year.text@);
    let pg = trimmed(form.pages.text@);
    let dt = trimmed(form.finished_at.text@);
    let exv = match ex {
        Some(e) => Some(e@),
        None => None,
    };
    if title.len() == 0 {
        ValidationError::EmptyTitle
    } else if !is_u16_numeral(yr) {
        ValidationError::InvalidYear
    } else if !is_u16_numeral(pg) {
        ValidationError::InvalidPages
    } else if !(dt.len() == 0 || is_date_string(dt)) {
        ValidationError::InvalidDate
    } else if date_order_fails(dt, exv) {
        ValidationError::DateNotAfterLatest
    } else {
        ValidationError::NoAuthors
    }
}

/// How the record a successful submit builds relates to the form it came
/// from: each field carries the parsed value, the history extends `ex`'s,
/// an id on the form is kept, and the cover path follows the title.
pub open spec fn spec_built_from(b: Book, form: BookForm, ex: Option<Book>) -> bool {
    let exv = match ex {
        Some(e) => Some(e@),
        None => None,
    };
    &&& b.title@ == trimmed(form.title.text@)
    &&& b.year as int == dec_value(unsigned_digits(trimmed(form.year.text@)))
    &&& b.pages as int == dec_value(unsigned_digits(trimmed(form.pages.text@)))
    &&& b@.authors == spec_authors(form.authors.text@)
    &&& b.reading_status == form.reading_status
    &&& b@.finished_at == new_history(trimmed(form.finished_at.text@), exv)
    &&& b.rating == form.rating
    &&& b.note@ == trimmed(form.note.text@)
    &&& (form.id matches Some(i) ==> b.id == i)
    &&& b@.cover_path matches Some(p) && p == "./covers/"@ + form.title.text@ + ".jpg"@
    &&& b.wf()
}

impl Book {
    /// Validate the form and build the record it describes. The checks run
    /// in a fixed order — title, year, pages, completion date, authors —
    /// and the first failure is the error; `Ok` exactly when all pass.
    pub fn from(form: &BookForm, existing: Option<&Book>) -> (r: Result<Book, ValidationError>)
        requires
            form.wf(),
            existing matches Some(e) ==> e.wf(),
        ensures
            ({
                let title = trimmed(form.title.text@);
                let yr = trimmed(form.year.text@);
                let pg = trimmed(form.pages.text@);
                let dt = trimmed(form.finished_at.text@);
                let aus = spec_authors(form.authors.text@);
                let ex = match existing {
                    Some(e) => Some(e@),
                    None => None,
                };
                let t_ok = title.len() > 0;
                let y_ok = is_u16_numeral(yr);
                let p_ok = is_u16_numeral(pg);
                let d_ok = dt.len() == 0 || is_date_string(dt);
                let o_fail = date_order_fails(dt, ex);
                &&& (r matches Err(ValidationError::EmptyTitle) <==> !t_ok)
                &&& (r matches Err(ValidationError::InvalidYear) <==> t_ok && !y_ok)
                &&& (r matches Err(ValidationError::InvalidPages) <==> t_ok && y_ok && !p_ok)
                &&& (r matches Err(ValidationError::InvalidDate) <==> t_ok && y_ok && p_ok
                    && !d_ok)
                &&& (r matches Err(ValidationError::DateNotAfterLatest) <==> t_ok && y_ok && p_ok
                    && d_ok && o_fail)
                &&& (r matches Err(ValidationError::NoAuthors) <==> t_ok && y_ok && p_ok && d_ok
                    && !o_fail && aus.len() == 0)
                &&& (r is Ok <==> t_ok && y_ok && p_ok && d_ok && !o_fail && aus.len() > 0)
            }),
            ({
                let exb = match existing {
                    Some(e) => Some(*e),
                    None => None,
                };
                &&& (r is Ok <==> spec_form_valid(*form, exb))
                &&& (r matches Err(e) ==> e == spec_first_error(*form, exb))
                &&& (r matches Ok(b) ==> spec_built_from(b, *form, exb))
            }),
    {
        let title = str_trim(form.title.text.as_str());
        if title.as_str().is_empty() {
            return Err(ValidationError::EmptyTitle);
        }
        let yr_text = str_trim(form.year.text.as_str());
        let year = match parse_u16(yr_text.as_str()) {
            Some(y) => y,
            None => {
                return Err(ValidationError::InvalidYear);
            },
        };
        let pg_text = str_trim(form.pages.text.as_str());
        let pages = match parse_u16(pg_text.as_str()) {
            Some(p) => p,
            None => {
                return Err(ValidationError::InvalidPages);
            },
        };
        let dt_text = str_trim(form.finished_at.text.as_str());
        let mut finished_at: Vec<Date> = Vec::new();
        if !dt_text.as_str().is_empty() {
            let d = match parse_date(dt_text.as_str()) {
                Some(d) => d,
                None => {
                    return Err(ValidationError::InvalidDate);
                },
            };
            match existing {
                Some(e) => {
                    if e.finished_at.len() > 0 {
                        let last = e.finished_at[e.finished_at.len() - 1];
                        if last.before(&d) {
                            let mut i: usize = 0;
                            while i < e.finished_at.len()
                                invariant
                                    0 <= i <= e.finished_at@.len(),
                                    finished_at@ == e.finished_at@.take(i as int),
                                decreases e.finished_at@.len() - i,
                            {
                                finished_at.push(e.finished_at[i]);
                                proof {
                                    assert(finished_at@ =~= e.finished_at@.take(i + 1));
                                }
                                i = i + 1;
                            }
                            proof {
                                assert(e.finished_at@.take(e.finished_at@.len() as int)
                                    =~= e.finished_at@);
                            }
                            finished_at.push(d);
                        } else {
                            return Err(ValidationError::DateNotAfterLatest);
                        }
                    } else {
                        finished_at.push(d);
                        proof {
                            assert(finished_at@ =~= seq![d]);
                        }
                    }
                },
                None => {
                    finished_at.push(d);
                    proof {
                        assert(finished_at@ =~= seq![d]);
                    }
                },
            }
        }
        let authors = parse_authors(form.authors.text.as_str());
        if authors.len() == 0 {
            return Err(ValidationError::NoAuthors);
        }
        let id = match form.id {
            Some(i) => i,
            None => fresh_id(),
        };
        let note = str_trim(form.note.text.as_str());
        let mut cover = String::from_str("./covers/");
        cover.append(form.title.text.as_str());
        cover.append(".jpg");
        let b = Book {
            id,
            title,
            authors,
            year,
            pages,
            reading_status: form.reading_status,
            finished_at,
            rating: form.rating,
            note,
            cover_path: Some(cover),
        };
        proof {
            lemma_normalize_authors_nonblank(comma_split(form.authors.text@));
            let dt = trimmed(form.finished_at.text@);
            let ex = match existing {
                Some(e) => Some(e@),
                None => None,
            };
            assert(b@.finished_at == new_history(dt, ex));
            assert forall|i: int, j: int|
                0 <= i < j < b@.finished_at.len() implies date_lt(
                b@.finished_at[i],
                b@.finished_at[j],
            ) by {
                if dt.len() > 0 && ex is Some {
                    let e = ex->Some_0;
                    if e.finished_at.len() > 0 {
                        if j < e.finished_at.len() {
                        } else {
                            if i < e.finished_at.len() - 1 {
                                assert(date_lt(e.finished_at[i], e.finished_at.last()));
                            }
                        }
                    }
                }
            }
        }
        Ok(b)
    }

    /// Invariant of a record built by validation: at least one author, every
    /// author non-blank, completion dates valid and strictly increasing.
    pub open spec fn wf(self) -> bool {
        &&& MIN_RATING <= self@.rating <= MAX_RATING
        &&& self@.authors.len() >= 1
        &&& forall|i: int| 0 <= i < self@.authors.len() ==> (#[trigger] self@.authors[i]).len() > 0
        &&& forall|i: int, j: int|
            0 <= i < j < self@.finished_at.len() ==> date_lt(
                self@.finished_at[i],
                self@.finished_at[j],
            )
        &&& forall|i: int|
            0 <= i < self@.finished_at.len() ==> (#[trigger] self@.finished_at[i]).spec_valid()
    }

    /// The record's title, lower-cased and with one leading article
    /// (`The `, `A `, `An `) removed; the collection sorts by this key.
    pub fn title_normalized(&self) -> (r: String)
        ensures
            r@ == spec_title_normalized(self.title@),
    {
        let title = self.title.as_str();
        let n = title.unicode_len();
        if starts_with_article(title, 'T', 'h', 'e') {
            let st = title.substring_char(4, n);
            proof {
                assert(st@ =~= strip_article(self.title@));
            }
            return to_lowercase_str(st);
        }
        if n >= 2 && title.get_char(0) == 'A' && title.get_char(1) == ' ' {
            let st = title.substring_char(2, n);
            proof {
                assert(st@ =~= strip_article(self.title@));
            }
            return to_lowercase_str(st);
        }
        if n >= 3 && title.get_char(0) == 'A' && title.get_char(1) == 'n' && title.get_char(2)
            == ' ' {
            let st = title.substring_char(3, n);
            proof {
                assert(st@ =~= strip_article(self.title@));
            }
            return to_lowercase_str(st);
        }
        to_lowercase_str(title)
    }

    /// Whether the record's status is `Read`.
    pub fn is_read(&self) -> (r: bool)
        ensures
            r == (self.reading_status == ReadingStatus::Read),
    {
        match self.reading_status {
            ReadingStatus::Read => true,
            _ => false,
        }
    }

    /// An author shortened for the table: every name but the last becomes
    /// an initial, the surname stays whole.
    pub fn author_with_initials(author: &String) -> (r: String)
        ensures
            r@ == spec_author_with_initials(author@),
    {
        let words = split_words(author.as_str());
        let ghost wv = spec_words(author@);
        proof {
            lemma_drop_empty_nonblank(ws_split(author@));
        }
        if words.len() == 0 {
            return String::new();
        }
        if words.len() == 1 {
            return String::from_str(words[0].as_str());
        }
        let last = words.len() - 1;
        let mut r = String::new();
        let mut i: usize = 0;
        while i < last
            invariant
                0 <= i <= last,
                last == wv.len() - 1,
                1 <= wv.len(),
                wv == str_views(words@),
                wv.len() == words@.len(),
                forall|t: int| 0 <= t < wv.len() ==> (#[trigger] wv[t]).len() > 0,
                r@ == spec_initials(wv.take(i as int)),
            decreases last - i,
        {
            if i > 0 {
                push_char(&mut r, ' ');
            }
            proof {
                assert(words@[i as int]@ == wv[i as int]);
            }
            push_char(&mut r, words[i].as_str().get_char(0));
            push_char(&mut r, '.');
            proof {
                assert(wv.take(i + 1).drop_last() =~= wv.take(i as int));
                assert(wv.take(i + 1).last() == wv[i as int]);
                if i == 0 {
                    assert(r@ =~= spec_initials(wv.take(1)));
                } else {
                    assert(r@ =~= spec_initials(wv.take(i + 1)));
                }
            }
            i = i + 1;
        }
        push_char(&mut r, ' ');
        r.append(words[last].as_str());
        proof {
            assert(wv.take(last as int) =~= wv.drop_last());
            assert(wv.last() == wv[last as int]);
            assert(r@ =~= spec_initials(wv.drop_last()) + seq![' '] + wv.last());
        }
        r
    }

    /// Runtime check of the record invariant, for data read from outside:
    /// true exactly when the record is well-formed.
    pub fn is_well_formed(&self) -> (r: bool)
        ensures
            r == self.wf(),
    {
        if !(MIN_RATING <= self.rating && self.rating <= MAX_RATING) {
            return false;
        }
        if self.authors.len() == 0 {
            return false;
        }
        let mut i: usize = 0;
        while i < self.authors.len()
            invariant
                0 <= i <= self.authors@.len(),
                forall|t: int| 0 <= t < i ==> (#[trigger] str_views(self.authors@)[t]).len() > 0,
            decreases self.authors@.len() - i,
        {
            if self.authors[i].as_str().is_empty() {
                proof {
                    assert(str_views(self.authors@)[i as int].len() == 0);
                }
                return false;
            }
            i = i + 1;
        }
        let mut j: usize = 0;
        while j < self.finished_at.len()
            invariant
                0 <= j <= self.finished_at@.len(),
                forall|t: int|
                    0 <= t < j ==> (#[trigger] self.finished_at@[t]).spec_valid(),
                forall|t: int|
                    0 < t < j ==> date_lt(#[trigger] self.finished_at@[t - 1], self.finished_at@[t]),
            decreases self.finished_at@.len() - j,
        {
            if !self.finished_at[j].valid() {
                proof {
                    assert(!(self@.finished_at[j as int]).spec_valid());
                }
                return false;
            }
            if j > 0 && !self.finished_at[j - 1].before(&self.finished_at[j]) {
                proof {
                    assert(!date_lt(self@.finished_at[j - 1], self@.finished_at[j as int]));
                }
                return false;
            }
            j = j + 1;
        }
        proof {
            assert forall|a: int, b: int|
                0 <= a < b < self.finished_at@.len() implies date_lt(
                self.finished_at@[a],
                self.finished_at@[b],
            ) by {
                lemma_adjacent_implies_sorted(self.finished_at@, a, b);
            }
        }
        true
    }

    /// A field-for-field copy of the record.
    pub fn duplicate(&self) -> (r: Book)
        ensures
            r@ == self@,
    {
        let mut authors: Vec<String> = Vec::new();
        let mut i: usize = 0;
        while i < self.authors.len()
            invariant
                0 <= i <= self.authors@.len(),
                authors@.len() == i,
                str_views(authors@) == str_views(self.authors@).take(i as int),
            decreases self.authors@.len() - i,
        {
            let ghost before = authors@;
            let piece = String::from_str(self.authors[i].as_str());
            proof {
                assert(piece@ == self.authors@[i as int]@);
            }
            authors.push(piece);
            proof {
                assert(authors@ == before.push(piece));
                assert forall|t: int|
                    0 <= t < i + 1 implies str_views(authors@)[t] == str_views(
                    self.authors@,
                ).take(i + 1)[t] by {
                    if t < i {
                        assert(str_views(before)[t] == str_views(self.authors@).take(
                            i as int,
                        )[t]);
                    } else {
                        assert(authors@[t] == piece);
                    }
                }
                assert(str_views(authors@).len() == i + 1);
                assert(str_views(authors@) =~= str_views(self.authors@).take(i + 1));
            }
            i = i + 1;
        }
        let mut finished_at: Vec<Date> = Vec::new();
        let mut j: usize = 0;
        while j < self.finished_at.len()
            invariant
                0 <= j <= self.finished_at@.len(),
                finished_at@ == self.finished_at@.take(j as int),
            decreases self.finished_at@.len() - j,
        {
            finished_at.push(self.finished_at[j]);
            proof {
                assert(finished_at@ =~= self.finished_at@.take(j + 1));
            }
            j = j + 1;
        }
        let cover_path = match &self.cover_path {
            Some(p) => Some(String::from_str(p.as_str())),
            None => None,
        };
        let r = Book {
            id: self.id,
            title: String::from_str(self.title.as_str()),
            authors,
            year: self.year,
            pages: self.pages,
            reading_status: self.reading_status,
            finished_at,
            rating: self.rating,
            note: String::from_str(self.note.as_str()),
            cover_path,
        };
        proof {
            assert(str_views(r.authors@) =~= str_views(self.authors@));
            assert(r.finished_at@ =~= self.finished_at@);
            assert(r@ =~= self@);
        }
        r
    }
}

proof fn lemma_adjacent_implies_sorted(ds: Seq<Date>, i: int, j: int)
    requires
        0 <= i < j < ds.len(),
        forall|k: int| 0 < k < ds.len() ==> date_lt(#[trigger] ds[k - 1], ds[k]),
    ensures
        date_lt(ds[i], ds[j]),
    decreases j - i,
{
    assert(date_lt(ds[j - 1], ds[j]));
    if j > i + 1 {
        lemma_adjacent_implies_sorted(ds, i, j - 1);
    }
}

fn starts_with_article(s: &str, c0: char, c1: char, c2: char) -> (r: bool)
    ensures
        r == (s@.len() >= 4 && s@[0] == c0 && s@[1] == c1 && s@[2] == c2 && s@[3] == ' '),
{
    let n = s.unicode_len();
    n >= 4 && s.get_char(0) == c0 && s.get_char(1) == c1 && s.get_char(2) == c2 && s.get_char(3)
        == ' '
}

/// `s` without one leading article: `The `, or else `A `, or else `An `.
pub open spec fn strip_article(s: Seq<char>) -> Seq<char> {
    if s.len() >= 4 && s[0] == 'T' && s[1] == 'h' && s[2] == 'e' && s[3] == ' ' {
        s.skip(4)
    } else if s.len() >= 2 && s[0] == 'A' && s[1] == ' ' {
        s.skip(2)
    } else if s.len() >= 3 && s[0] == 'A' && s[1] == 'n' && s[2] == ' ' {
        s.skip(3)
    } else {
        s
    }
}

/// The sort key of a title: the case-folded form with one leading article
/// removed.
pub open spec fn spec_title_normalized(title: Seq<char>) -> Seq<char> {
    lower_of(strip_article(title))
}

/// Why a form failed validation, in the order the checks run.
#[derive(Clone, Copy, Debug, PartialEq, Eq, Structural)]
pub enum ValidationError {
    EmptyTitle,
    InvalidYear,
    InvalidPages,
    InvalidDate,
    DateNotAfterLatest,
    NoAuthors,
}

/// The status-line message of a validation error.
pub open spec fn spec_message(e: ValidationError) -> Seq<char> {
    match e {
        ValidationError::EmptyTitle => "Title cannot be empty"@,
        ValidationError::InvalidYear => "Year must be a valid number"@,
        ValidationError::InvalidPages => "Pages must be a valid number"@,
        ValidationError::InvalidDate => "Finished on must be a valid date in format YYYY-MM-DD"@,
        ValidationError::DateNotAfterLatest => "New finished on date has to be more recent than the last."@,
        ValidationError::NoAuthors => "At least one author is required"@,
    }
}

impl ValidationError {
    /// The message shown in the status line and on the form.
    pub fn message(&self) -> (r: String)
        ensures
            r@ == spec_message(*self),
    {
        match self {
            ValidationError::EmptyTitle => String::from_str("Title cannot be empty"),
            ValidationError::InvalidYear => String::from_str("Year must be a valid number"),
            ValidationError::InvalidPages => String::from_str("Pages must be a valid number"),
            ValidationError::InvalidDate => String::from_str(
                "Finished on must be a valid date in format YYYY-MM-DD",
            ),
            ValidationError::DateNotAfterLatest => String::from_str(
                "New finished on date has to be more recent than the last.",
            ),
            ValidationError::NoAuthors => String::from_str("At least one author is required"),
        }
    }
}

/// `s` cut at every comma; each comma yields one more piece, and a string
/// without commas is a single piece.
pub open spec fn comma_split(s: Seq<char>) -> Seq<Seq<char>>
    decreases s.len(),
{
    if s.len() == 0 {
        seq![s]
    } else if s[0] == ',' {
        seq![Seq::<char>::empty()] + comma_split(s.skip(1))
    } else {
        let rest = comma_split(s.skip(1));
        seq![seq![s[0]] + rest[0]] + rest.skip(1)
    }
}

proof fn lemma_comma_split_nonempty(s: Seq<char>)
    ensures
        comma_split(s).len() >= 1,
    decreases s.len(),
{
    if s.len() > 0 {
        lemma_comma_split_nonempty(s.skip(1));
    }
}

/// The pieces, each trimmed, with the blank ones dropped.
pub open spec fn normalize_authors(ps: Seq<Seq<char>>) -> Seq<Seq<char>>
    decreases ps.len(),
{
    if ps.len() == 0 {
        Seq::empty()
    } else {
        let t = trimmed(ps[0]);
        let rest = normalize_authors(ps.skip(1));
        if t.len() > 0 {
            seq![t] + rest
        } else {
            rest
        }
    }
}

proof fn lemma_normalize_authors_nonblank(ps: Seq<Seq<char>>)
    ensures
        forall|i: int|
            0 <= i < normalize_authors(ps).len() ==> (#[trigger] normalize_authors(ps)[i]).len()
                > 0,
    decreases ps.len(),
{
    if ps.len() > 0 {
        lemma_normalize_authors_nonblank(ps.skip(1));
        let t = trimmed(ps[0]);
        let rest = normalize_authors(ps.skip(1));
        assert forall|i: int|
            0 <= i < normalize_authors(ps).len() implies (#[trigger] normalize_authors(
            ps,
        )[i]).len() > 0 by {
            if t.len() > 0 {
                if i > 0 {
                    assert(normalize_authors(ps)[i] == rest[i - 1]);
                }
            } else {
                assert(normalize_authors(ps)[i] == rest[i]);
            }
        }
    }
}

/// The author list read from the authors field: the field split on commas,
/// each piece trimmed, blank pieces dropped.
pub open spec fn spec_authors(s: Seq<char>) -> Seq<Seq<char>> {
    normalize_authors(comma_split(s))
}

/// `s` cut at every whitespace character; each whitespace character yields
/// one more piece.
pub open spec fn ws_split(s: Seq<char>) -> Seq<Seq<char>>
    decreases s.len(),
{
    if s.len() == 0 {
        seq![s]
    } else if is_unicode_whitespace(s[0]) {
        seq![Seq::<char>::empty()] + ws_split(s.skip(1))
    } else {
        let rest = ws_split(s.skip(1));
        seq![seq![s[0]] + rest[0]] + rest.skip(1)
    }
}

proof fn lemma_ws_split_nonempty(s: Seq<char>)
    ensures
        ws_split(s).len() >= 1,
    decreases s.len(),
{
    if s.len() > 0 {
        lemma_ws_split_nonempty(s.skip(1));
    }
}

/// The pieces with the empty ones dropped.
pub open spec fn drop_empty(ps: Seq<Seq<char>>) -> Seq<Seq<char>>
    decreases ps.len(),
{
    if ps.len() == 0 {
        Seq::empty()
    } else {
        let rest = drop_empty(ps.skip(1));
        if ps[0].len() > 0 {
            seq![ps[0]] + rest
        } else {
            rest
        }
    }
}

proof fn lemma_drop_empty_nonblank(ps: Seq<Seq<char>>)
    ensures
        forall|i: int| 0 <= i < drop_empty(ps).len() ==> (#[trigger] drop_empty(ps)[i]).len() > 0,
    decreases ps.len(),
{
    if ps.len() > 0 {
        lemma_drop_empty_nonblank(ps.skip(1));
        let rest = drop_empty(ps.skip(1));
        assert forall|i: int|
            0 <= i < drop_empty(ps).len() implies (#[trigger] drop_empty(ps)[i]).len() > 0 by {
            if ps[0].len() > 0 {
                if i > 0 {
                    assert(drop_empty(ps)[i] == rest[i - 1]);
                }
            } else {
                assert(drop_empty(ps)[i] == rest[i]);
            }
        }
    }
}

/// The whitespace-separated words of `s`.
pub open spec fn spec_words(s: Seq<char>) -> Seq<Seq<char>> {
    drop_empty(ws_split(s))
}

/// The initials of the given words, each abbreviated to its first
/// character and a dot, joined with single spaces.
pub open spec fn spec_initials(ws: Seq<Seq<char>>) -> Seq<char>
    decreases ws.len(),
{
    if ws.len() == 0 {
        Seq::empty()
    } else if ws.len() == 1 {
        seq![ws[0][0], '.']
    } else {
        spec_initials(ws.drop_last()) + seq![' ', ws.last()[0], '.']
    }
}

/// An author shortened for the table: every name but the last becomes an
/// initial, the surname stays whole.
pub open spec fn spec_author_with_initials(s: Seq<char>) -> Seq<char> {
    let w = spec_words(s);
    if w.len() == 0 {
        Seq::empty()
    } else if w.len() == 1 {
        w[0]
    } else {
        spec_initials(w.drop_last()) + seq![' '] + w.last()
    }
}

fn ws_split_from(s: &str, from: usize) -> (r: Vec<String>)
    requires
        from <= s@.len(),
    ensures
        str_views(r@) == ws_split(s@.skip(from as int)),
        r@.len() >= 1,
    decreases s@.len() - from,
{
    let n = s.unicode_len();
    if from == n {
        let mut r: Vec<String> = Vec::new();
        r.push(String::new());
        proof {
            assert(s@.skip(from as int) =~= Seq::<char>::empty());
            assert(str_views(r@) =~= ws_split(s@.skip(from as int)));
        }
        r
    } else {
        let c = s.get_char(from);
        let mut rest = ws_split_from(s, from + 1);
        let ghost tail = ws_split(s@.skip(from + 1));
        proof {
            assert(s@.skip(from as int).skip(1) =~= s@.skip(from + 1));
            assert(s@.skip(from as int)[0] == s@[from as int]);
            lemma_ws_split_nonempty(s@.skip(from + 1));
        }
        if char_is_whitespace(c) {
            rest.insert(0, String::new());
            proof {
                assert(str_views(rest@) =~= seq![Seq::<char>::empty()] + tail);
                assert(ws_split(s@.skip(from as int)) == seq![Seq::<char>::empty()] + tail);
            }
            rest
        } else {
            let mut first = String::new();
            push_char(&mut first, c);
            first.append(rest[0].as_str());
            let _ = rest.remove(0);
            rest.insert(0, first);
            proof {
                assert(first@ =~= seq![s@[from as int]] + tail[0]);
                assert(str_views(rest@) =~= seq![seq![s@[from as int]] + tail[0]] + tail.skip(1));
                assert(ws_split(s@.skip(from as int)) == seq![seq![s@[from as int]] + tail[0]]
                    + tail.skip(1));
            }
            rest
        }
    }
}

fn split_words(s: &str) -> (r: Vec<String>)
    ensures
        str_views(r@) == spec_words(s@),
{
    let pieces = ws_split_from(s, 0);
    let ghost pv = str_views(pieces@);
    proof {
        assert(s@.skip(0) =~= s@);
        assert(pv.skip(0) =~= pv);
    }
    let mut out: Vec<String> = Vec::new();
    let mut i: usize = 0;
    while i < pieces.len()
        invariant
            0 <= i <= pieces@.len(),
            pv == str_views(pieces@),
            pv.len() == pieces@.len(),
            drop_empty(pv) == str_views(out@) + drop_empty(pv.skip(i as int)),
        decreases pieces@.len() - i,
    {
        let ghost pre_out = str_views(out@);
        let keep = !pieces[i].as_str().is_empty();
        if keep {
            out.push(String::from_str(pieces[i].as_str()));
        }
        proof {
            assert(pv.skip(i as int)[0] == pv[i as int]);
            assert(pv.skip(i as int).skip(1) =~= pv.skip(i + 1));
            if keep {
                assert(str_views(out@) =~= pre_out + seq![pv[i as int]]);
                assert(drop_empty(pv.skip(i as int)) == seq![pv[i as int]] + drop_empty(
                    pv.skip(i + 1),
                ));
                assert(pre_out + (seq![pv[i as int]] + drop_empty(pv.skip(i + 1))) =~= (pre_out
                    + seq![pv[i as int]]) + drop_empty(pv.skip(i + 1)));
            } else {
                assert(drop_empty(pv.skip(i as int)) == drop_empty(pv.skip(i + 1)));
            }
        }
        i = i + 1;
    }
    proof {
        assert(pv.skip(pieces@.len() as int) =~= Seq::<Seq<char>>::empty());
        assert(drop_empty(Seq::<Seq<char>>::empty()) == Seq::<Seq<char>>::empty());
        assert(str_views(out@) =~= drop_empty(pv));
    }
    out
}

fn comma_split_from(s: &str, from: usize) -> (r: Vec<String>)
    requires
        from <= s@.len(),
    ensures
        str_views(r@) == comma_split(s@.skip(from as int)),
        r@.len() >= 1,
    decreases s@.len() - from,
{
    let n = s.unicode_len();
    if from == n {
        let mut r: Vec<String> = Vec::new();
        r.push(String::new());
        proof {
            assert(s@.skip(from as int) =~= Seq::<char>::empty());
            assert(str_views(r@) =~= comma_split(s@.skip(from as int)));
        }
        r
    } else {
        let c = s.get_char(from);
        let mut rest = comma_split_from(s, from + 1);
        let ghost tail = comma_split(s@.skip(from + 1));
        proof {
            assert(s@.skip(from as int).skip(1) =~= s@.skip(from + 1));
            assert(s@.skip(from as int)[0] == s@[from as int]);
            lemma_comma_split_nonempty(s@.skip(from + 1));
        }
        if c == ',' {
            rest.insert(0, String::new());
            proof {
                assert(str_views(rest@) =~= seq![Seq::<char>::empty()] + tail);
                assert(comma_split(s@.skip(from as int)) == seq![Seq::<char>::empty()] + tail);
            }
            rest
        } else {
            let mut first = String::new();
            push_char(&mut first, c);
            first.append(rest[0].as_str());
            let ghost r0 = rest@;
            let _ = rest.remove(0);
            rest.insert(0, first);
            proof {
                assert(first@ =~= seq![s@[from as int]] + tail[0]);
                assert(str_views(rest@) =~= seq![seq![s@[from as int]] + tail[0]] + tail.skip(1));
                assert(comma_split(s@.skip(from as int)) == seq![seq![s@[from as int]] + tail[0]]
                    + tail.skip(1));
            }
            rest
        }
    }
}

/// Read the author list out of the authors field.
fn parse_authors(s: &str) -> (r: Vec<String>)
    ensures
        str_views(r@) == spec_authors(s@),
{
    let pieces = comma_split_from(s, 0);
    let ghost pv = str_views(pieces@);
    proof {
        assert(s@.skip(0) =~= s@);
        assert(pv.skip(0) =~= pv);
    }
    let mut out: Vec<String> = Vec::new();
    let mut i: usize = 0;
    while i < pieces.len()
        invariant
            0 <= i <= pieces@.len(),
            pv == str_views(pieces@),
            pv.len() == pieces@.len(),
            normalize_authors(pv) == str_views(out@) + normalize_authors(pv.skip(i as int)),
        decreases pieces@.len() - i,
    {
        let t = str_trim(pieces[i].as_str());
        let ghost tv = t@;
        let ghost pre_out = str_views(out@);
        let keep = !t.as_str().is_empty();
        if keep {
            out.push(t);
        }
        proof {
            assert(pv.skip(i as int)[0] == pv[i as int]);
            assert(pv.skip(i as int).skip(1) =~= pv.skip(i + 1));
            assert(tv == trimmed(pv[i as int]));
            if keep {
                assert(str_views(out@) =~= pre_out + seq![tv]);
                assert(normalize_authors(pv.skip(i as int)) == seq![tv] + normalize_authors(
                    pv.skip(i + 1),
                ));
                assert(pre_out + (seq![tv] + normalize_authors(pv.skip(i + 1))) =~= (pre_out
                    + seq![tv]) + normalize_authors(pv.skip(i + 1)));
            } else {
                assert(normalize_authors(pv.skip(i as int)) == normalize_authors(pv.skip(i + 1)));
            }
        }
        i = i + 1;
    }
    proof {
        assert(pv.skip(pieces@.len() as int) =~= Seq::<Seq<char>>::empty());
        assert(normalize_authors(Seq::<Seq<char>>::empty()) == Seq::<Seq<char>>::empty());
        assert(str_views(out@) =~= normalize_authors(pv));
    }
    out
}

} // verus!
