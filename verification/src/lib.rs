//! Looks up when a command's executable was created, modified and accessed.
//!
//! The library receives a resolved path and raw timestamps from its caller,
//! decides which derived fields a lookup record carries, and renders the
//! record either as fixed-label text lines or as a canonical key-ordered
//! structured document that can be decoded back losslessly.

mod chars;
pub mod escape;
pub mod json;
pub mod pipeline;
pub mod record;
pub mod timestamp;

pub use pipeline::found;
pub use pipeline::present;
pub use pipeline::Lookup;
pub use record::Output;
pub use record::OutputError;
pub use timestamp::stamp_local;
pub use timestamp::Stamped;
pub use timestamp::Timestamp;
