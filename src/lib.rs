//! Rebuilds, from the log of a link-traversal query engine, the changes of
//! its link queue: for each query, the links pushed and the links popped, in
//! the order of the log.

pub mod aggregate;
pub mod event;
pub mod json;
pub mod laws;
pub mod process;
pub mod text;

pub use aggregate::HistoryByQuery;
pub use event::{Direction, History, LinkEvent};
pub use process::{apply_event, process_line, Field, LineError};
pub use text::{find_event_json, normalize_query};
