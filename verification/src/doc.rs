//! Documentation of a schema: comments harvested from SQL migrations and
//! combined with what the database holds.
pub mod combine;
pub mod gather_comments;
pub mod gather_database;
pub mod comment_on;
pub mod uncommented;
