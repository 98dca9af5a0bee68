//! The rows of the six tables.

pub mod author;
pub mod follow;
pub mod post;
pub mod post_media;
pub mod scheduled_post;
pub mod telegram_user;
