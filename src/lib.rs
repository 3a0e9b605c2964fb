//! A store of `.aif-bin` asset files kept in one folder under the user's
//! documents directory.
//!
//! The file system itself is reached by the caller; this crate holds the
//! rules around it: which folder is used, which directory entries count as
//! library files and in what order they are listed, which checks guard each
//! operation, and what error each failure becomes.
pub mod error;
pub mod listing;
pub mod naming;
pub mod record;
pub mod store;
