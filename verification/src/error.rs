//! The sink's error taxonomy.

use vstd::prelude::*;

verus! {

/// Everything that can go wrong while configuring or driving the sink.
///
/// - `Configuration`: bad or missing configuration, or an unrecognized
///   postprocessor name; fatal at construction or init time.
/// - `Encode`: the codec failed on a value; aborts the current event.
/// - `Transform`: a postprocessor failed; aborts the current event.
/// - `Io`: opening, appending to or flushing the output handle failed.
#[derive(Clone, Copy, Debug, PartialEq, Eq, Structural)]
pub enum SinkError {
    Configuration,
    Encode,
    Transform,
    Io,
}

impl SinkError {
    /// A short human-readable name for the error, for hosts that log it.
    pub fn describe(&self) -> (r: &'static str)
        ensures
            self is Configuration ==> r@ == "invalid configuration"@,
            self is Encode ==> r@ == "codec failed to encode value"@,
            self is Transform ==> r@ == "postprocessor failed"@,
            self is Io ==> r@ == "file handle error"@,
    {
        match self {
            SinkError::Configuration => "invalid configuration",
            SinkError::Encode => "codec failed to encode value",
            SinkError::Transform => "postprocessor failed",
            SinkError::Io => "file handle error",
        }
    }
}

} // verus!
