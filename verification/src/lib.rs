//! An in-memory key-value store: a table of string-to-string pairs with
//! atomic lookup, insert/overwrite, conditional update and removal, and the
//! request-handling layer that translates table results into API responses.

pub mod handlers;
pub mod laws;
pub mod table;
