//! The channel group: attributes, requests and the handle that makes them.

pub mod attr;
pub mod get;
pub mod handle;
pub mod set;
