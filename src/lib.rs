//! Per-resource I/O statistics gathered from a system-call trace, and the
//! report lines rendered from them.

pub mod histogram;
pub mod humanize;
pub mod summary;
pub mod text;

pub use histogram::Histogram;
pub use humanize::{compact, humanize};
pub use summary::{FileDescription, GenericFileDescriptor, Report, SocketDescription, Summary};
