//! What the feed source sends, and what is made of it.

pub mod twitterclient;
