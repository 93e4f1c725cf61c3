//! A terminal file sink for an event pipeline.
//!
//! Events flow in, each carrying one or more structured values. Every value is
//! encoded to bytes by a codec, run through a chain of byte-level
//! postprocessors, and appended to an output handle as newline-terminated
//! records; after all values of an event are written, the handle is flushed
//! once and a positive acknowledgment is returned upstream.
//!
//! The codec, the postprocessor chain, and the output handle are capabilities
//! the sink consumes through narrow trait interfaces; in-memory
//! implementations suitable for driving the sink without real I/O live in
//! [`handle`], [`codec`] and [`postprocess`].

pub mod codec;
pub mod error;
pub mod event;
pub mod handle;
pub mod postprocess;
pub mod sink;
