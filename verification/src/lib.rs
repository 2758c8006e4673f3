//! Device/queue negotiation core for a Vulkan-style graphics scaffold.
//!
//! The library holds the decision logic of instance and device setup as
//! verified code over plain values: version packing, native string encoding,
//! validation-layer availability checks, physical-device filtering, queue
//! family selection, and the strict teardown order of the created handles.
//! The actual driver calls live outside the library and feed it the plain
//! data it decides over.

pub mod base;
pub mod context;
pub mod encoding;
pub mod errors;
pub mod log;
pub mod queue;
pub mod surface;
