//! Core logic of a LAN clipboard and file sharing client: clipboard
//! entries, the share links handed out for local files, the small HTTP
//! file server that serves them, and the decisions of the sync session.
pub mod text;
pub mod mime;
pub mod clipboard;
pub mod file_server;
pub mod sharing;
pub mod sync;
