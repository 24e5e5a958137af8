//! An append-only, versioned key-value store over an embedded SQL table.
//!
//! Every write appends a new timestamped record instead of overwriting the
//! previous value, so both the latest value and the full history of a key can
//! be retrieved. The ordering of records (creation time ascending, record id
//! as the tie-break) and the rendering of output lines are verified; the
//! embedded SQL engine is reached only through a small trusted boundary.

pub mod order;
pub mod record;
pub mod query;
pub mod sqlite_api;
pub mod store;
pub mod dispatch;
pub mod laws;
