//! The postprocessing capability: byte-level transforms applied after
//! encoding, in declared order.

use vstd::prelude::*;

use crate::error::SinkError;

verus! {

/// The payload size above which [`BoundedChain`] rejects a buffer.
pub const SIZE_LIMIT: usize = 1024;

/// A whole postprocessor chain, as the sink sees it.
///
/// The chain is built once, at init time, from the list of postprocessor
/// names the pipeline declared; an unrecognized list is refused with
/// `SinkError::Configuration`. Applying the chain to one encoded value
/// yields an ordered sequence of byte-packets, each of which the sink frames
/// as one line. `post` is the chain's specification; `apply` must agree with
/// it exactly and may not change it, so what the chain produces for a buffer
/// is a function of the chain as it was built.
pub trait PostprocessorChain: Sized {
    /// The chain that a list of postprocessor names declares, or `None` if
    /// the list is not recognized.
    spec fn from_specs_spec(specs: Seq<Seq<char>>) -> Option<Self>;

    /// Build the chain from the declared postprocessor names.
    fn from_specs(specs: &Vec<String>) -> (r: Result<Self, SinkError>)
        ensures
            (match r {
                Ok(chain) => Self::from_specs_spec(specs.deep_view()) == Some(chain),
                Err(e) => Self::from_specs_spec(specs.deep_view()) is None && e
                    == SinkError::Configuration,
            }),
    ;

    /// The packets this chain produces for a buffer, or `None` if it rejects
    /// the buffer.
    spec fn post(&self, ingest_ns: u64, data: Seq<u8>) -> Option<Seq<Seq<u8>>>;

    /// Run one encoded value through the chain, or report
    /// `SinkError::Transform` for a rejected one.
    fn apply(&mut self, ingest_ns: u64, data: Vec<u8>) -> (r: Result<Vec<Vec<u8>>, SinkError>)
        ensures
            forall|ns: u64, d: Seq<u8>| #[trigger] final(self).post(ns, d) == old(self).post(
                ns,
                d,
            ),
            (match r {
                Ok(packets) => old(self).post(ingest_ns, data@) == Some(packets.deep_view()),
                Err(e) => old(self).post(ingest_ns, data@) is None && e == SinkError::Transform,
            }),
    ;
}

/// The empty chain: one packet per value, the encoded bytes unchanged.
/// Declared by an empty list of postprocessor names.
pub struct NoopChain;

impl PostprocessorChain for NoopChain {
    open spec fn from_specs_spec(specs: Seq<Seq<char>>) -> Option<NoopChain> {
        if specs.len() == 0 {
            Some(NoopChain)
        } else {
            None
        }
    }

    fn from_specs(specs: &Vec<String>) -> (r: Result<NoopChain, SinkError>) {
        if specs.len() == 0 {
            Ok(NoopChain)
        } else {
            Err(SinkError::Configuration)
        }
    }

    open spec fn post(&self, ingest_ns: u64, data: Seq<u8>) -> Option<Seq<Seq<u8>>> {
        Some(seq![data])
    }

    fn apply(&mut self, ingest_ns: u64, data: Vec<u8>) -> (r: Result<Vec<Vec<u8>>, SinkError>) {
        let ghost d = data@;
        let mut packets: Vec<Vec<u8>> = Vec::new();
        packets.push(data);
        proof {
            assert(packets.deep_view() =~~= seq![d]);
        }
        Ok(packets)
    }
}

/// A framing step: each encoded value becomes a single packet carrying the
/// payload length as eight big-endian bytes, followed by the payload.
/// Declared by the single postprocessor name `length-prefix`.
pub struct LenPrefixChain;

/// The eight big-endian bytes of `n`.
pub open spec fn be_bytes(n: u64) -> Seq<u8> {
    seq![
        (n >> 56) as u8,
        (n >> 48) as u8,
        (n >> 40) as u8,
        (n >> 32) as u8,
        (n >> 24) as u8,
        (n >> 16) as u8,
        (n >> 8) as u8,
        n as u8,
    ]
}

impl PostprocessorChain for LenPrefixChain {
    open spec fn from_specs_spec(specs: Seq<Seq<char>>) -> Option<LenPrefixChain> {
        if specs.len() == 1 && specs[0] == "length-prefix"@ {
            Some(LenPrefixChain)
        } else {
            None
        }
    }

    fn from_specs(specs: &Vec<String>) -> (r: Result<LenPrefixChain, SinkError>) {
        let name: String = "length-prefix".to_owned();
        if specs.len() == 1 && specs[0] == name {
            Ok(LenPrefixChain)
        } else {
            Err(SinkError::Configuration)
        }
    }

    open spec fn post(&self, ingest_ns: u64, data: Seq<u8>) -> Option<Seq<Seq<u8>>> {
        if data.len() <= u64::MAX {
            Some(seq![be_bytes(data.len() as u64) + data])
        } else {
            None
        }
    }

    fn apply(&mut self, ingest_ns: u64, data: Vec<u8>) -> (r: Result<Vec<Vec<u8>>, SinkError>) {
        let n = data.len() as u64;
        let mut packet: Vec<u8> = Vec::new();
        packet.push(#[verifier::truncate] ((n >> 56) as u8));
        packet.push(#[verifier::truncate] ((n >> 48) as u8));
        packet.push(#[verifier::truncate] ((n >> 40) as u8));
        packet.push(#[verifier::truncate] ((n >> 32) as u8));
        packet.push(#[verifier::truncate] ((n >> 24) as u8));
        packet.push(#[verifier::truncate] ((n >> 16) as u8));
        packet.push(#[verifier::truncate] ((n >> 8) as u8));
        packet.push(#[verifier::truncate] (n as u8));
        proof {
            assert(packet@ =~= be_bytes(data@.len() as u64));
        }
        let mut i: usize = 0;
        while i < data.len()
            invariant
                i <= data.len(),
                packet@ == be_bytes(data@.len() as u64) + data@.take(i as int),
            decreases data.len() - i,
        {
            packet.push(data[i]);
            i += 1;
            proof {
                assert(packet@ =~= be_bytes(data@.len() as u64) + data@.take(i as int));
            }
        }
        proof {
            assert(packet@ =~= be_bytes(data@.len() as u64) + data@);
        }
        let ghost p = packet@;
        let mut packets: Vec<Vec<u8>> = Vec::new();
        packets.push(packet);
        proof {
            assert(packets.deep_view() =~~= seq![p]);
        }
        Ok(packets)
    }
}

/// A guard step that rejects oversized payloads: a buffer longer than
/// [`SIZE_LIMIT`] bytes fails the transform, anything else passes through
/// unchanged. Declared by the single postprocessor name `size-limit`.
pub struct BoundedChain;

impl PostprocessorChain for BoundedChain {
    open spec fn from_specs_spec(specs: Seq<Seq<char>>) -> Option<BoundedChain> {
        if specs.len() == 1 && specs[0] == "size-limit"@ {
            Some(BoundedChain)
        } else {
            None
        }
    }

    fn from_specs(specs: &Vec<String>) -> (r: Result<BoundedChain, SinkError>) {
        let name: String = "size-limit".to_owned();
        if specs.len() == 1 && specs[0] == name {
            Ok(BoundedChain)
        } else {
            Err(SinkError::Configuration)
        }
    }

    open spec fn post(&self, ingest_ns: u64, data: Seq<u8>) -> Option<Seq<Seq<u8>>> {
        if data.len() <= SIZE_LIMIT {
            Some(seq![data])
        } else {
            None
        }
    }

    fn apply(&mut self, ingest_ns: u64, data: Vec<u8>) -> (r: Result<Vec<Vec<u8>>, SinkError>) {
        if data.len() > SIZE_LIMIT {
            return Err(SinkError::Transform);
        }
        let ghost d = data@;
        let mut packets: Vec<Vec<u8>> = Vec::new();
        packets.push(data);
        proof {
            assert(packets.deep_view() =~~= seq![d]);
        }
        Ok(packets)
    }
}

} // verus!
