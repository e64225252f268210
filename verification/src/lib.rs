//! Core of a communication-board backend: salted credentials, signed bearer
//! tokens, an ownership guard, a content-addressed blob store and a
//! filtered, paginated listing of tiles.
//!
//! The logic is verified with Verus. What it takes on trust from other
//! crates stands in small functions marked `external_body` and in
//! `assume_specification` items, each with a note of what it claims.

pub mod auth;
pub mod blob;
pub mod credential;
pub mod cursor;
pub mod digest;
pub mod error;
pub mod form;
pub mod guard;
pub mod listing;
pub mod scope;
pub mod service;
pub mod text;
pub mod tile;
pub mod token;
pub mod urlcode;
