//! Verified core of a sysfs-style GPIO library: the pin entity with its
//! input/output dichotomy, the text-level value encoding and parsing used on
//! pin value files, and the watcher's registration table that routes
//! file-change events to the channel of the pin they belong to.
//!
//! All process, file and watch-subsystem I/O lives outside this crate; the
//! functions here take the outcomes of those operations as plain values and
//! make every decision the library is responsible for.

pub mod errors;
pub mod pin;
pub mod text;
pub mod watcher;
