//! Catalog of surveillance-camera recordings.
//!
//! The library parses camera file paths into structured records, keeps a
//! durable catalog of them in an embedded SQLite database, and enforces a
//! storage quota by selecting the oldest recordings for eviction.
//! Filesystem traversal and physical file deletion are left to the caller,
//! who hands in plain values (paths, sizes, creation times) and carries out
//! the eviction plan that the library computes.

pub mod cli;
pub mod db;
pub mod maintenance;
pub mod models;
pub mod parser;
pub mod scanner;
pub mod text;
pub mod web;
