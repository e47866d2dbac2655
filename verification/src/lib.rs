//! The decisions behind a WinFSP file system that is backed by an encrypted store.

pub mod adapter;
pub mod attr;
pub mod change;
pub mod context;
pub mod conversation;
pub mod directory;
pub mod exchange;
pub mod filetime;
pub mod flags;
pub mod io;
pub mod laws;
pub mod listing;
pub mod mount;
pub mod open;
pub mod order;
pub mod path;
pub mod plan;
pub mod protocol;
pub mod resolve;
pub mod security;
pub mod status;
pub mod system;
pub mod utf16;
