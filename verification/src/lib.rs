//! A persisted, change-notifying shared state container.
//!
//! The library keeps a single logical value, reloads it from a persisted
//! rendering on startup (falling back to a default when nothing usable is
//! there), and after every committed mutation produces the notification and
//! the persistence bytes that the hosting runtime must deliver and write.
//! The library itself performs no I/O: the caller reads and writes the state
//! file and drives the broadcast channel, handing plain values in and out.

pub mod codec;
pub mod errors;
pub mod persistable;
pub mod saveable;
pub mod synced;

pub use errors::StateError;
pub use persistable::Persistable;
pub use saveable::Saveable;
pub use synced::{Commit, Notification, Synced};
