//! Searches for the users of a directory: the filter of a request is
//! converted into the filter that a backend evaluates, and each user that the
//! backend lists is shown as an entry with the attributes that the request
//! asks for.

pub mod attributes;
pub mod dn;
pub mod error;
pub mod filter;
pub mod search;
pub mod text;
pub mod time;
pub mod types;
