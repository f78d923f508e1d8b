//! Bidirectional translation between HTTP status codes and their reason
//! phrases, over a table built once from a list of (code, message) records.
//! Lookups go through a normalized key: lowercased, then trimmed of
//! surrounding whitespace.

pub mod key;
pub mod laws;
pub mod status;
pub mod table;

pub use key::normalize_key;
pub use status::{
    all_codes, all_messages, code, is_valid_code, is_valid_message, load_status_maps, message,
    Status, StatusError, StatusMaps,
};
