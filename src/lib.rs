//! Resolves course, chapter and lesson identifiers from the documents that a
//! learning platform's API returns, extracts lesson readmes, and decides the
//! outcome of the external reflow step that renders them.

pub mod text;
pub mod json;
pub mod error;
pub mod catalog;
pub mod listing;
pub mod lesson;
pub mod render;
pub mod config;
