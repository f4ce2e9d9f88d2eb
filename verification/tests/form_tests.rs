use bookie::book::{Book, BookId, ValidationError, MAX_RATING, MIN_RATING};
use bookie::book_form::BookForm;
use bookie::date::Date;
use bookie::form_field::FormField;
use bookie::reading_status::ReadingStatus;

fn filled_form(title: &str, authors: &str, year: &str, pages: &str) -> BookForm {
    let mut f = BookForm::default();
    f.active = FormField::Title;
    for c in title.chars() {
        f.insert_char(c);
    }
    f.active = FormField::Authors;
    for c in authors.chars() {
        f.insert_char(c);
    }
    f.active = FormField::Year;
    for c in year.chars() {
        f.insert_char(c);
    }
    f.active = FormField::Pages;
    for c in pages.chars() {
        f.insert_char(c);
    }
    f.active = FormField::Title;
    f
}

fn set_finished(f: &mut BookForm, date: &str) {
    f.active = FormField::FinishedAt;
    for c in date.chars() {
        f.insert_char(c);
    }
    f.active = FormField::Title;
}

fn existing_with_dates(dates: Vec<Date>) -> Book {
    Book {
        id: BookId(9),
        title: "Existing".to_string(),
        authors: vec!["Author".to_string()],
        year: 2000,
        pages: 100,
        reading_status: ReadingStatus::Read,
        finished_at: dates,
        rating: 3,
        note: String::new(),
        cover_path: None,
    }
}

#[test]
fn empty_title_fails_first() {
    // Year and pages are nonsense too: the title error still comes first.
    let form = filled_form("   ", "", "no-year", "no-pages");
    let r = Book::from(&form, None);
    assert_eq!(r.unwrap_err(), ValidationError::EmptyTitle);
    assert_eq!(
        ValidationError::EmptyTitle.message(),
        "Title cannot be empty"
    );
}

#[test]
fn year_must_parse() {
    let form = filled_form("T", "A", "20x4", "100");
    assert_eq!(Book::from(&form, None).unwrap_err(), ValidationError::InvalidYear);
    let form = filled_form("T", "A", "70000", "100");
    assert_eq!(Book::from(&form, None).unwrap_err(), ValidationError::InvalidYear);
    let form = filled_form("T", "A", "", "100");
    assert_eq!(Book::from(&form, None).unwrap_err(), ValidationError::InvalidYear);
}

#[test]
fn pages_must_parse() {
    let form = filled_form("T", "A", "2020", "many");
    assert_eq!(Book::from(&form, None).unwrap_err(), ValidationError::InvalidPages);
}

#[test]
fn finished_date_must_be_a_calendar_day() {
    let mut form = filled_form("T", "A", "2020", "100");
    set_finished(&mut form, "2024-13-01");
    assert_eq!(Book::from(&form, None).unwrap_err(), ValidationError::InvalidDate);
    let mut form = filled_form("T", "A", "2020", "100");
    set_finished(&mut form, "2023-02-29");
    assert_eq!(Book::from(&form, None).unwrap_err(), ValidationError::InvalidDate);
    let mut form = filled_form("T", "A", "2020", "100");
    set_finished(&mut form, "2024-02-29");
    assert!(Book::from(&form, None).is_ok());
}

#[test]
fn finished_date_equal_to_latest_is_rejected() {
    let existing = existing_with_dates(vec![Date { year: 2024, month: 5, day: 1 }]);
    let mut form = filled_form("T", "A", "2020", "100");
    set_finished(&mut form, "2024-05-01");
    assert_eq!(
        Book::from(&form, Some(&existing)).unwrap_err(),
        ValidationError::DateNotAfterLatest
    );
}

#[test]
fn finished_date_older_than_latest_is_rejected() {
    let existing = existing_with_dates(vec![Date { year: 2024, month: 5, day: 1 }]);
    let mut form = filled_form("T", "A", "2020", "100");
    set_finished(&mut form, "2023-12-31");
    assert_eq!(
        Book::from(&form, Some(&existing)).unwrap_err(),
        ValidationError::DateNotAfterLatest
    );
}

#[test]
fn newer_finished_date_extends_the_history() {
    let existing = existing_with_dates(vec![
        Date { year: 2022, month: 1, day: 1 },
        Date { year: 2024, month: 5, day: 1 },
    ]);
    let mut form = filled_form("T", "A", "2020", "100");
    set_finished(&mut form, "2024-05-02");
    let b = Book::from(&form, Some(&existing)).unwrap();
    assert_eq!(
        b.finished_at,
        vec![
            Date { year: 2022, month: 1, day: 1 },
            Date { year: 2024, month: 5, day: 1 },
            Date { year: 2024, month: 5, day: 2 },
        ]
    );
}

#[test]
fn authors_split_on_commas_trimmed_and_nonempty() {
    let form = filled_form("T", " Jane Doe , ,John Roe ", "2020", "100");
    let b = Book::from(&form, None).unwrap();
    assert_eq!(b.authors, vec!["Jane Doe".to_string(), "John Roe".to_string()]);
    let form = filled_form("T", " , ,", "2020", "100");
    assert_eq!(Book::from(&form, None).unwrap_err(), ValidationError::NoAuthors);
}

#[test]
fn successful_validation_builds_the_record() {
    let mut form = filled_form("  The Title  ", "A", "2020", "321");
    form.reading_status = ReadingStatus::Reading;
    form.rating = 4;
    form.active = FormField::Note;
    for c in "a note".chars() {
        form.insert_char(c);
    }
    let b = Book::from(&form, None).unwrap();
    assert_eq!(b.title, "The Title");
    assert_eq!(b.year, 2020);
    assert_eq!(b.pages, 321);
    assert_eq!(b.reading_status, ReadingStatus::Reading);
    assert_eq!(b.rating, 4);
    assert_eq!(b.note, "a note");
    assert!(b.finished_at.is_empty());
    assert_eq!(b.cover_path.as_deref(), Some("./covers/  The Title  .jpg"));
}

#[test]
fn form_keeps_the_id_it_was_given() {
    let existing = existing_with_dates(vec![]);
    let form = BookForm::from(&existing);
    assert_eq!(form.title.text, "Existing");
    assert_eq!(form.authors.text, "Author");
    assert_eq!(form.year.text, "2000");
    assert_eq!(form.pages.text, "100");
    assert_eq!(form.finished_at.text, "");
    // Every cursor sits at the end of its text.
    assert_eq!(form.title.cursor, 8);
    assert_eq!(form.authors.cursor, 6);
    assert_eq!(form.year.cursor, 4);
    assert_eq!(form.pages.cursor, 3);
    assert_eq!(form.finished_at.cursor, 0);
    assert_eq!(form.note.cursor, 0);
    let b = Book::from(&form, Some(&existing)).unwrap();
    assert_eq!(b.id, BookId(9));
}

#[test]
fn blank_form_starts_with_cursors_at_zero() {
    let f = BookForm::default();
    assert_eq!(f.title.cursor, 0);
    assert_eq!(f.authors.cursor, 0);
    assert_eq!(f.year.cursor, 0);
    assert_eq!(f.pages.cursor, 0);
    assert_eq!(f.finished_at.cursor, 0);
    assert_eq!(f.note.cursor, 0);
    assert!(f.id.is_none());
    assert_eq!(f.rating, 3);
}

#[test]
fn form_shows_latest_finished_date() {
    let existing = existing_with_dates(vec![
        Date { year: 2022, month: 1, day: 1 },
        Date { year: 2024, month: 11, day: 30 },
    ]);
    let form = BookForm::from(&existing);
    assert_eq!(form.finished_at.text, "2024-11-30");
}

#[test]
fn authors_joined_with_comma_space() {
    let mut existing = existing_with_dates(vec![]);
    existing.authors = vec!["A One".to_string(), "B Two".to_string()];
    let form = BookForm::from(&existing);
    assert_eq!(form.authors.text, "A One, B Two");
}

#[test]
fn rating_steps_clamp_to_range() {
    let mut f = BookForm::default();
    assert_eq!(f.rating, 3);
    f.active = FormField::Rating;
    f.increase_rating();
    f.increase_rating();
    f.increase_rating();
    assert_eq!(f.rating, MAX_RATING);
    for _ in 0..10 {
        f.decrease_rating();
    }
    assert_eq!(f.rating, MIN_RATING);
    // Steps only act while the rating field is active.
    f.active = FormField::Title;
    f.increase_rating();
    assert_eq!(f.rating, MIN_RATING);
}

#[test]
fn reading_status_steps_clamp_without_wrapping() {
    let mut f = BookForm::default();
    f.active = FormField::ReadingStatus;
    assert_eq!(f.reading_status, ReadingStatus::ToRead);
    f.decrease_reading_status();
    assert_eq!(f.reading_status, ReadingStatus::ToRead);
    f.increase_reading_status();
    f.increase_reading_status();
    assert_eq!(f.reading_status, ReadingStatus::Read);
    f.increase_reading_status();
    assert_eq!(f.reading_status, ReadingStatus::Read);
}

#[test]
fn field_order_wraps_both_directions() {
    let mut f = BookForm::default();
    assert_eq!(f.active, FormField::Title);
    for _ in 0..8 {
        f.next_field();
    }
    assert_eq!(f.active, FormField::Title);
    f.previous_field();
    assert_eq!(f.active, FormField::Note);
    f.next_field();
    assert_eq!(f.active, FormField::Title);
}

#[test]
fn authors_abbreviate_to_initials_and_surname() {
    assert_eq!(Book::author_with_initials(&"Jane Doe".to_string()), "J. Doe");
    assert_eq!(
        Book::author_with_initials(&"John Ronald Reuel Tolkien".to_string()),
        "J. R. R. Tolkien"
    );
    assert_eq!(Book::author_with_initials(&"Plato".to_string()), "Plato");
    assert_eq!(Book::author_with_initials(&"".to_string()), "");
    assert_eq!(Book::author_with_initials(&"  spaced   name  ".to_string()), "s. name");
}

#[test]
fn status_index_round_trip() {
    for st in [ReadingStatus::ToRead, ReadingStatus::Reading, ReadingStatus::Read] {
        assert_eq!(ReadingStatus::from(st.index()), st);
    }
    assert_eq!(ReadingStatus::ToRead.index(), 0);
    assert_eq!(ReadingStatus::Read.index(), 2);
}

#[test]
fn well_formedness_check_matches_the_invariant() {
    let good = existing_with_dates(vec![
        Date { year: 2022, month: 1, day: 1 },
        Date { year: 2023, month: 2, day: 2 },
    ]);
    assert!(good.is_well_formed());
    let mut no_authors = existing_with_dates(vec![]);
    no_authors.authors.clear();
    assert!(!no_authors.is_well_formed());
    let mut blank_author = existing_with_dates(vec![]);
    blank_author.authors = vec![String::new()];
    assert!(!blank_author.is_well_formed());
    let unsorted = existing_with_dates(vec![
        Date { year: 2023, month: 2, day: 2 },
        Date { year: 2022, month: 1, day: 1 },
    ]);
    assert!(!unsorted.is_well_formed());
    let mut bad_rating = existing_with_dates(vec![]);
    bad_rating.rating = 0;
    assert!(!bad_rating.is_well_formed());
    let invalid_day = existing_with_dates(vec![Date { year: 2023, month: 2, day: 29 }]);
    assert!(!invalid_day.is_well_formed());
}
