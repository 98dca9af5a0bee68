//! Mirrors an author's public posts into local tables and turns queued posts
//! into channel messages: the rules of ingestion and of publishing, with the
//! text handling both rest on.

pub mod commands;
pub mod entity;
pub mod models;
pub mod routes;
pub mod store;
pub mod text;
pub mod workers;
