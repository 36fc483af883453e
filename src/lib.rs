//! Keystroke-driven lookup over multilingual word lists: the query parser,
//! the scan engine, the result formatter, the language selector and the
//! session state machine that ties them together.
pub mod language;
pub mod text;
pub mod query;
pub mod scan;
pub mod results;
pub mod dictionaries;
pub mod session;
