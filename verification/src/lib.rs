//! Converts a property-list XML export of a media library into a flat table:
//! one row per track dictionary, one column per distinct key seen across all
//! tracks. The core is a streaming state machine over classified XML parse
//! events; it never materializes the document tree.

pub mod event;
pub mod kvmap;
pub mod machine;
pub mod table;
pub mod convert;
pub mod csv_out;
pub mod laws;
