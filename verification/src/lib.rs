//! Verified core of a fuser-compatible filesystem facade backed by a
//! Dokan-style, path-based callback model.

pub mod errno;
pub mod types;
pub mod text;
pub mod paths;
pub mod assoc;
pub mod resolver;
pub mod mount_options;
pub mod request;
pub mod experimental;
pub mod reply;
pub mod bytes;
pub mod notify;
pub mod flags;
pub mod helpers;
pub mod security;
pub mod operations;
pub mod adapter;
pub mod session_state;
pub mod consts;
