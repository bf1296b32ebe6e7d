//! Resolves emote catalogs from two providers' JSON responses and plans the
//! download of their images, with a manifest of names.

pub mod json;
pub mod text;
pub mod catalog;
pub mod pipeline;
pub mod config;
