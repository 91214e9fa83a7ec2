//! A small library behind a static-mirror HTTP server: it builds the route
//! table for a directory tree, renders directory listings as HTML, and
//! resolves the server's configuration. All filesystem reads and the HTTP
//! serving itself happen outside; this crate works on the plain values they
//! hand in and is verified.

pub mod config;
pub mod listing;
pub mod routes;
