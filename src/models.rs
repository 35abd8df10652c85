//! Rows of the two persisted tables. Timestamps are microseconds since the
//! Unix epoch, in UTC.
pub mod card;
pub mod deck;
