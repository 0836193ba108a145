//! The storage and replication core of a local-first notes application.
//!
//! One store per device keeps notes and settings, deletes in two stages so
//! that a deletion can travel, and takes over records from other devices by
//! version: the strictly higher version wins, whole record at a time.
//!
//! - [`models`]: the note, the settings and the four sync messages.
//! - [`time`]: timestamps as integers, with chrono behind them.
//! - [`error`]: the failures and their kinds.
//! - [`replica`]: the store as a map of notes, its changes as functions on
//!   that map, and the laws of replication.
//! - [`database`]: the engine that holds the state and carries out the
//!   changes.
//! - [`native`]: the calls of a mobile binding, over a handle.
//!
//! The engine keeps its state in memory. A host makes it durable by handing
//! it the stored rows at start-up and writing its notes out after a change.

use vstd::prelude::*;

pub mod database;
pub mod error;
pub mod models;
pub mod native;
pub mod replica;
pub mod time;

pub use database::DatabaseConnection;
pub use error::NotaroError;
pub use models::{Note, SyncMessage, UserSettings};

verus! {

/// The greeting a host prints once the storage core is linked in.
pub open spec fn greeting() -> Seq<char> {
    "Notaro Core initialized."@
}

/// Returns the core's greeting line.
pub fn core_entrypoint() -> (out: String)
    ensures
        out@ == greeting(),
{
    "Notaro Core initialized.".to_owned()
}

} // verus!
