//! The decisions behind a two-way clipboard bridge between X11 and Wayland.

pub mod command;
pub mod fingerprint;
pub mod mime;
pub mod mime_laws;
pub mod process;
pub mod session;
pub mod sync;
pub mod sync_laws;
pub mod text;
pub mod text_laws;
pub mod uri;
pub mod uri_laws;
pub mod watch;
