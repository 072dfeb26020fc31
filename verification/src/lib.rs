//! Reads Steam's key-value configuration documents, assembles accounts,
//! installed titles and library folders from them, and plans the account
//! switch and client restart that start a title under a chosen login.
//!
//! Nothing here touches the disk, the registry or the process table: every
//! function takes the documents and settings it needs as plain values and
//! returns what has to be written or started.
use vstd::prelude::*;

pub mod text;
pub mod manifest;
pub mod document;
pub mod data;
pub mod error;
pub mod settings;
pub mod pattern;
pub mod encoding;
pub mod accounts;
pub mod installs;
pub mod restart;
pub mod steam;
pub mod launch;

verus! {

} // verus!
