pub mod error;
pub mod hashing;
pub mod launcher;
pub mod markup;
pub mod models;
pub mod paths;
pub mod save_sync;
pub mod snapshot;
pub mod sync_protocol;
pub mod sync_session;
pub mod text;
pub mod wine;
pub mod system;
pub mod logs;
pub mod storage;
pub mod covers;
pub mod library;
pub mod presence;
pub mod vndb;
pub mod peer;
pub mod edits;
pub mod actions;
pub mod time;
