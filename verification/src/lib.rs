//! Verified core of a movie-catalog admin service.
//!
//! The library holds the pieces of the service whose behaviour is worth
//! stating and proving: the status-code mapper, the edit-form validator,
//! decimal parsing and formatting of record ids, an in-memory movie table
//! that realises the repository's query contracts, and the per-route
//! handler decisions. The surrounding web server (routing, form decoding,
//! HTML rendering) lives outside the library.

pub mod movie_controller;
pub mod movie_repo;
pub mod text;
