//! The encoding capability: turning a structured value into bytes.

use vstd::prelude::*;

use crate::error::SinkError;

verus! {

/// A codec turns one structured value into one byte buffer.
///
/// `enc` is the codec's specification: `Some(bytes)` for a value it encodes,
/// `None` for a value it rejects. `encode` must agree with `enc` exactly, and
/// a call may not change what the codec would produce for any value, so the
/// encoding of a value is a function of the codec as it was handed to the
/// sink.
pub trait Codec<V> {
    /// What this codec produces for a value, or `None` if it rejects it.
    spec fn enc(&self, value: V) -> Option<Seq<u8>>;

    /// Encode one value, or report `SinkError::Encode` for a rejected one.
    fn encode(&mut self, value: &V) -> (r: Result<Vec<u8>, SinkError>)
        ensures
            forall|v: V| #[trigger] final(self).enc(v) == old(self).enc(v),
            (match r {
                Ok(bytes) => old(self).enc(*value) == Some(bytes@),
                Err(e) => old(self).enc(*value) is None && e == SinkError::Encode,
            }),
    ;
}

/// A codec for values that already are raw byte payloads: it passes every
/// payload through unchanged and rejects nothing.
pub struct RawCodec;

impl Codec<Vec<u8>> for RawCodec {
    open spec fn enc(&self, value: Vec<u8>) -> Option<Seq<u8>> {
        Some(value@)
    }

    fn encode(&mut self, value: &Vec<u8>) -> (r: Result<Vec<u8>, SinkError>) {
        let mut bytes: Vec<u8> = Vec::new();
        let mut i: usize = 0;
        while i < value.len()
            invariant
                i <= value.len(),
                bytes@ == value@.take(i as int),
            decreases value.len() - i,
        {
            bytes.push(value[i]);
            i += 1;
            proof {
                assert(bytes@ =~= value@.take(i as int));
            }
        }
        proof {
            assert(bytes@ =~= value@);
        }
        Ok(bytes)
    }
}

/// A codec over raw byte payloads that enforces a maximum encoded size:
/// payloads longer than `max` bytes are rejected with `SinkError::Encode`.
pub struct BoundedCodec {
    pub max: usize,
}

impl Codec<Vec<u8>> for BoundedCodec {
    open spec fn enc(&self, value: Vec<u8>) -> Option<Seq<u8>> {
        if value@.len() <= self.max {
            Some(value@)
        } else {
            None
        }
    }

    fn encode(&mut self, value: &Vec<u8>) -> (r: Result<Vec<u8>, SinkError>) {
        if value.len() > self.max {
            return Err(SinkError::Encode);
        }
        let mut bytes: Vec<u8> = Vec::new();
        let mut i: usize = 0;
        while i < value.len()
            invariant
                i <= value.len(),
                bytes@ == value@.take(i as int),
            decreases value.len() - i,
        {
            bytes.push(value[i]);
            i += 1;
            proof {
                assert(bytes@ =~= value@.take(i as int));
            }
        }
        proof {
            assert(bytes@ =~= value@);
        }
        Ok(bytes)
    }
}

} // verus!
