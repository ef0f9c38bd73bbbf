//! A reader for snoop traces: the line-oriented log in which a web proxy
//! records what it sent and received on each connection.
//!
//! A trace is a run of records. A record is a header line, then either
//! nothing more (an error) or a body between two delimiter lines: a summary
//! of the connection, the action, and a hex dump where the action carries
//! payload. [`SnoopParser`] reads the lines of a trace and hands out the
//! records one by one, optionally only those of chosen threads, with the
//! payload kept raw, decoded to text, or left out.
//!
//! The library is verified with Verus. `machine` states what the parser
//! computes, `laws` what follows from it; `pattern` and `stamp` hold what is
//! believed of the `regex` and `chrono` crates, `text` one fact about
//! `String::push`.
pub mod entry;
pub mod error;
pub mod fields;
pub mod laws;
pub mod machine;
pub mod parser;
pub mod pattern;
pub mod reflow;
pub mod stamp;
pub mod text;

pub use entry::render;
pub use entry::ActionEntry;
pub use entry::DataEntry;
pub use entry::Entry;
pub use entry::ErrorEntry;
pub use error::SnoopError;
pub use fields::Action;
pub use fields::Header;
pub use fields::Summary;
pub use parser::SnoopParser;
pub use reflow::snoop_to_text;
pub use stamp::Timestamp;
