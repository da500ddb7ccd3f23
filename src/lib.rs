//! Time-sliced archiving of a partitioned message feed: records are grouped
//! into fixed event-time windows, each window becomes one compressed object
//! in an object store, and read positions are stored only after the object
//! for their window has been uploaded.

pub mod dumper;
pub mod guard;
pub mod kafka;
pub mod naming;
pub mod offsets;
pub mod settings;
pub mod slice;
pub mod upload;
pub mod window;
