//! What the request layer decides before it writes to the tables.

pub mod author;
pub mod feed;
