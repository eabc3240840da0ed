//! A small HTTP honeypot library: a line-oriented request reader, a header
//! map, a response model with its wire rendering, a fake directory-listing
//! generator and a recogniser for legacy PHP probe queries.
pub mod text;
pub mod headers;
pub mod clock;
pub mod response;
pub mod error;
pub mod uri;
pub mod request;
pub mod php;
pub mod fake;
pub mod stock;
pub mod router;
