use bookie::book::{Book, BookId};
use bookie::book_info::BookInfoState;
use bookie::cover::{CoverDecodeOutcome, CoverStatus};
use bookie::model::{Message, Model, SavedState};
use bookie::reading_status::ReadingStatus;

fn one_book_model() -> Model {
    let b = Book {
        id: BookId(1),
        title: "One".to_string(),
        authors: vec!["Author".to_string()],
        year: 2000,
        pages: 100,
        reading_status: ReadingStatus::ToRead,
        finished_at: vec![],
        rating: 3,
        note: String::new(),
        cover_path: Some("./covers/no-such-file.jpg".to_string()),
    };
    Model::from(SavedState { books: vec![b], selected: Some(0) })
}

/// Open and decode as the dispatch loop would; a missing or unreadable
/// file degrades to a failed outcome instead of an error.
fn decode_outcome(path: &str) -> CoverDecodeOutcome {
    match image::ImageReader::open(path) {
        Ok(reader) => match reader.decode() {
            Ok(_) => CoverDecodeOutcome::Decoded,
            Err(_) => CoverDecodeOutcome::Failed,
        },
        Err(_) => CoverDecodeOutcome::Failed,
    }
}

#[test]
fn nonexistent_path_goes_loading_then_absent_never_ready() {
    let mut m = one_book_model();
    let out = m.update(Message::CancelForm);
    assert_eq!(out.cover_request, Some(0));
    assert!(matches!(m.book_info.cover, CoverStatus::Loading));
    let path = m.books[0].cover_path.clone().unwrap();
    let outcome = decode_outcome(&path);
    assert_eq!(outcome, CoverDecodeOutcome::Failed);
    m.book_info.finish_cover_load(outcome);
    assert!(matches!(m.book_info.cover, CoverStatus::Absent));
    // The next poll finds nothing to apply and returns at once.
    let applied = m.book_info.handle_cover_response();
    assert!(!applied);
    assert!(matches!(m.book_info.cover, CoverStatus::Absent));
}

#[test]
fn decoded_cover_becomes_ready_and_takes_resize_payloads() {
    let mut info = BookInfoState::new();
    assert!(matches!(info.cover, CoverStatus::Absent));
    info.finish_cover_load(CoverDecodeOutcome::Decoded);
    match info.cover {
        CoverStatus::Ready(a) => assert_eq!(a.revision, 0),
        _ => panic!("expected a ready cover"),
    }
    let applied = info.handle_cover_response();
    assert!(applied);
    match info.cover {
        CoverStatus::Ready(a) => assert_eq!(a.revision, 1),
        _ => panic!("expected a ready cover"),
    }
}

#[test]
fn selection_change_supersedes_a_stale_cover() {
    let mut m = one_book_model();
    m.book_info.finish_cover_load(CoverDecodeOutcome::Decoded);
    // A new selection goes back to Loading; an old response arriving later
    // is applied to whatever is loaded only while a cover is on display.
    let out = m.update(Message::NextBook);
    assert_eq!(out.cover_request, Some(0));
    assert!(matches!(m.book_info.cover, CoverStatus::Loading));
    assert!(!m.book_info.handle_cover_response());
}
