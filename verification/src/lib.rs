//! Verified core of a terminal book-catalog manager.
//!
//! The crate models the catalog domain: grapheme-aware text fields, a
//! validated book record, an editable form, the sorted collection with its
//! selection cursor, the cover-loading state machine, and the top-level
//! application state machine that dispatches messages. Terminal input,
//! rendering, file persistence and the background image worker live outside
//! this crate and talk to it through plain values.

pub mod book;
pub mod book_form;
pub mod book_info;
pub mod cover;
pub mod date;
pub mod form_field;
pub mod layout;
pub mod model;
pub mod reading_status;
pub mod text_input;
pub mod util;
