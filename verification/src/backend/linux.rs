//! Linux helpers shared by the desktop backends.
pub mod zenity;
