//! The agent's own log spool: what is recorded, when files rotate, and which page of the records
//! answers a query.

pub mod laws;
pub mod paging;
pub mod query;
pub mod record;
pub mod redact;
pub mod sort;
pub mod spool;
pub mod writer;
