//! Text-level logic of a cross-platform file and message dialog library.
mod text;
pub mod message_dialog;
pub mod file_dialog;
pub mod backend;
