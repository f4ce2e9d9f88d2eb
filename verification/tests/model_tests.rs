use bookie::book::{Book, BookId};
use bookie::book_info::BookInfoMode;
use bookie::cover::CoverStatus;
use bookie::date::Date;
use bookie::model::{Focus, Message, Model, RunningState, SavedState, StatusMode};
use bookie::reading_status::ReadingStatus;

fn book(id: u128, title: &str, year: u16) -> Book {
    Book {
        id: BookId(id),
        title: title.to_string(),
        authors: vec!["Author".to_string()],
        year,
        pages: 100,
        reading_status: ReadingStatus::ToRead,
        finished_at: vec![],
        rating: 3,
        note: String::new(),
        cover_path: None,
    }
}

fn model_with(books: Vec<Book>, selected: Option<usize>) -> Model {
    Model::from(SavedState { books, selected })
}

#[test]
fn empty_model_has_no_selection() {
    let m = model_with(vec![], None);
    assert!(m.selected.is_none());
    assert_eq!(m.focus, Focus::Table);
    assert_eq!(m.running_state, RunningState::Running);
    assert_eq!(m.book_info.mode, BookInfoMode::View);
    assert!(matches!(m.book_info.cover, CoverStatus::Absent));
}

#[test]
fn restore_clamps_out_of_range_cursor() {
    let m = model_with(vec![book(1, "One", 2000), book(2, "Two", 2001)], Some(9));
    assert_eq!(m.selected, Some(1));
    let m2 = model_with(vec![book(1, "One", 2000)], None);
    assert_eq!(m2.selected, Some(0));
}

#[test]
fn select_moves_are_no_ops_on_empty_collection() {
    let mut m = model_with(vec![], None);
    m.select_next_book();
    assert!(m.selected.is_none());
    m.select_previous_book();
    assert!(m.selected.is_none());
    let out = m.update(Message::NextBook);
    assert!(m.selected.is_none());
    assert!(out.cover_request.is_none());
}

#[test]
fn selection_clamps_at_both_ends() {
    let mut m = model_with(vec![book(1, "A1", 2000), book(2, "B2", 2001)], Some(0));
    m.select_previous_book();
    assert_eq!(m.selected, Some(0));
    m.select_next_book();
    assert_eq!(m.selected, Some(1));
    m.select_next_book();
    assert_eq!(m.selected, Some(1));
}

#[test]
fn add_book_sorts_and_reselects_by_id() {
    let mut m = model_with(vec![book(1, "Zebra", 2000)], Some(0));
    m.add_book(book(7, "Apple", 2010));
    assert_eq!(m.books.len(), 2);
    assert_eq!(m.books[0].title, "Apple");
    assert_eq!(m.books[1].title, "Zebra");
    assert_eq!(m.selected, Some(0));
    assert_eq!(m.books[0].id, BookId(7));
}

#[test]
fn locate_by_id_after_sort_finds_the_inserted_record() {
    let mut m = model_with(
        vec![book(1, "Middle", 2000), book(2, "Zoo", 2001)],
        Some(0),
    );
    m.add_book(book(42, "Aardvark", 1990));
    let pos = m.get_table_position_by_id(BookId(42)).unwrap();
    assert_eq!(pos, 0);
    assert_eq!(m.books[pos].title, "Aardvark");
    assert_eq!(m.books[pos].year, 1990);
}

#[test]
fn normalized_titles_order_ignores_articles_and_case() {
    let mut m = model_with(vec![], None);
    m.add_book(book(1, "The Hobbit", 1937));
    m.add_book(book(2, "A Study", 1887));
    m.add_book(book(3, "apple", 2000));
    m.add_book(book(4, "Zebra", 2001));
    let titles: Vec<&str> = m.books.iter().map(|b| b.title.as_str()).collect();
    assert_eq!(titles, vec!["apple", "The Hobbit", "A Study", "Zebra"]);
    assert_eq!(m.books[1].title_normalized(), "hobbit");
    assert_eq!(m.books[2].title_normalized(), "study");
}

#[test]
fn delete_scenario_keeps_selection_on_first_row() {
    // ["Dune" (2024), "1984" (1999)] sorts as ["1984", "Dune"].
    let mut m = model_with(vec![], None);
    m.add_book(book(1, "Dune", 2024));
    m.add_book(book(2, "1984", 1999));
    assert_eq!(m.books[0].title, "1984");
    assert_eq!(m.books[1].title, "Dune");
    m.selected = Some(0);
    let out = m.update(Message::ConfirmDeleteBook);
    assert_eq!(m.focus, Focus::Status);
    assert!(matches!(m.status, StatusMode::ConfirmDeleteBook));
    assert!(!out.persist);
    let out = m.update(Message::DeleteBook);
    assert_eq!(m.books.len(), 1);
    assert_eq!(m.books[0].title, "Dune");
    assert_eq!(m.selected, Some(0));
    assert!(out.persist);
    assert_eq!(m.focus, Focus::Table);
}

#[test]
fn delete_last_row_steps_selection_back() {
    let mut m = model_with(vec![book(1, "A1", 2000), book(2, "B2", 2001)], Some(1));
    let _ = m.update(Message::ConfirmDeleteBook);
    let _ = m.update(Message::DeleteBook);
    assert_eq!(m.selected, Some(0));
    let _ = m.update(Message::ConfirmDeleteBook);
    let _ = m.update(Message::DeleteBook);
    assert!(m.selected.is_none());
    assert!(m.books.is_empty());
}

#[test]
fn add_scenario_builds_record_and_returns_to_table() {
    let mut m = model_with(vec![], None);
    let out = m.update(Message::AddBook);
    assert_eq!(m.focus, Focus::Info);
    assert_eq!(m.book_info.mode, BookInfoMode::Add);
    assert!(!out.persist);
    for c in "Foo".chars() {
        m.update(Message::InsertChar(c));
    }
    m.update(Message::NextFormField);
    for c in "Bar".chars() {
        m.update(Message::InsertChar(c));
    }
    m.update(Message::NextFormField);
    for c in "2020".chars() {
        m.update(Message::InsertChar(c));
    }
    m.update(Message::NextFormField);
    for c in "100".chars() {
        m.update(Message::InsertChar(c));
    }
    let out = m.update(Message::SubmitForm);
    assert_eq!(m.books.len(), 1);
    assert_eq!(m.books[0].title, "Foo");
    assert_eq!(m.books[0].authors, vec!["Bar".to_string()]);
    assert_eq!(m.books[0].year, 2020);
    assert_eq!(m.books[0].pages, 100);
    assert_eq!(m.book_info.mode, BookInfoMode::View);
    assert_eq!(m.focus, Focus::Table);
    assert!(matches!(m.status, StatusMode::Normal));
    assert!(out.persist);
    assert_eq!(m.selected, Some(0));
}

#[test]
fn failed_submit_keeps_form_open_and_reports_error() {
    let mut m = model_with(vec![], None);
    m.update(Message::AddBook);
    let out = m.update(Message::SubmitForm);
    assert_eq!(m.focus, Focus::Info);
    assert_eq!(m.book_info.mode, BookInfoMode::Add);
    match &m.status {
        StatusMode::Error(msg) => assert_eq!(msg, "Title cannot be empty"),
        _ => panic!("expected an error status"),
    }
    assert_eq!(
        m.book_info.form.error.as_deref(),
        Some("Title cannot be empty")
    );
    assert!(!out.persist);
    // The next message clears the stale error.
    m.update(Message::InsertChar('x'));
    assert!(matches!(m.status, StatusMode::Normal));
    assert!(m.book_info.form.error.is_none());
}

#[test]
fn edit_submit_preserves_identity() {
    let mut m = model_with(vec![book(5, "Original", 2000)], Some(0));
    m.update(Message::EditBook);
    assert_eq!(m.book_info.mode, BookInfoMode::Edit);
    assert_eq!(m.book_info.form.title.text, "Original");
    assert_eq!(m.book_info.form.year.text, "2000");
    for c in " II".chars() {
        m.update(Message::InsertChar(c));
    }
    let out = m.update(Message::SubmitForm);
    assert!(out.persist);
    assert_eq!(m.books.len(), 1);
    assert_eq!(m.books[0].title, "Original II");
    assert_eq!(m.books[0].id, BookId(5));
}

#[test]
fn quit_stops_the_loop_and_persists() {
    let mut m = model_with(vec![], None);
    let out = m.update(Message::Quit);
    assert_eq!(m.running_state, RunningState::Done);
    assert!(out.persist);
}

#[test]
fn snapshot_restore_round_trip() {
    let mut m = model_with(vec![], None);
    m.add_book(book(1, "The Hobbit", 1937));
    m.add_book(book(2, "1984", 1949));
    m.select_next_book();
    let snap = m.snapshot();
    let m2 = Model::from(snap);
    assert_eq!(m2.books.len(), m.books.len());
    for (a, b) in m.books.iter().zip(m2.books.iter()) {
        assert_eq!(a.id, b.id);
        assert_eq!(a.title, b.title);
        assert_eq!(a.authors, b.authors);
        assert_eq!(a.year, b.year);
        assert_eq!(a.pages, b.pages);
        assert_eq!(a.reading_status, b.reading_status);
        assert_eq!(a.finished_at, b.finished_at);
        assert_eq!(a.rating, b.rating);
        assert_eq!(a.note, b.note);
        assert_eq!(a.cover_path, b.cover_path);
    }
    assert_eq!(m2.selected, m.selected);
}

#[test]
fn stats_count_exactly() {
    let mut done = book(1, "Done", 2020);
    done.reading_status = ReadingStatus::Read;
    done.pages = 350;
    done.finished_at = vec![
        Date { year: 2023, month: 1, day: 2 },
        Date { year: 2024, month: 6, day: 30 },
    ];
    let mut going = book(2, "Going", 2021);
    going.reading_status = ReadingStatus::Reading;
    going.authors = vec!["Author".to_string(), "Other".to_string()];
    let waiting = book(3, "Waiting", 2022);
    let m = model_with(vec![done, going, waiting], Some(0));
    assert_eq!(m.books_read(), 1);
    assert_eq!(m.books_reading(), 1);
    assert_eq!(m.books_to_read(), 1);
    assert_eq!(m.unique_authors(), 2);
    assert_eq!(m.books_read_in_year(2024), 1);
    assert_eq!(m.books_read_in_year(2023), 1);
    assert_eq!(m.books_read_in_year(2020), 0);
    assert_eq!(m.pages_read_in_year(2024), 350);
}

#[test]
fn cancel_reaffirms_cover_of_selection() {
    let mut m = model_with(vec![book(1, "A1", 2000)], Some(0));
    let out = m.update(Message::CancelForm);
    assert_eq!(out.cover_request, Some(0));
    assert!(matches!(m.book_info.cover, CoverStatus::Loading));
    assert_eq!(m.focus, Focus::Table);
}

#[test]
fn selection_invariant_holds_along_any_message_sequence() {
    let mut m = model_with(vec![book(1, "Seed", 2000)], Some(0));
    let script = [
        Message::NextBook,
        Message::AddBook,
        Message::InsertChar('T'),
        Message::NextFormField,
        Message::InsertChar('A'),
        Message::NextFormField,
        Message::InsertChar('1'),
        Message::NextFormField,
        Message::InsertChar('2'),
        Message::SubmitForm,
        Message::PreviousBook,
        Message::ConfirmDeleteBook,
        Message::DeleteBook,
        Message::ConfirmDeleteBook,
        Message::DeleteBook,
        Message::NextBook,
        Message::PreviousBook,
    ];
    for msg in script {
        let mut next = Some(msg);
        while let Some(inner) = next {
            let out = m.update(inner);
            next = out.next;
        }
        // The selection cursor is none exactly when the collection is
        // empty, and otherwise a valid index.
        match m.selected {
            None => assert!(m.books.is_empty()),
            Some(i) => assert!(i < m.books.len()),
        }
    }
    assert!(m.books.is_empty());
}
