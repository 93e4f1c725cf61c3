//! The output capability: an append-and-flush handle and its opener.

use vstd::prelude::*;

use crate::error::SinkError;

verus! {

/// An append-only output handle, as the sink sees it.
///
/// `bytes` is the logical contents written through the handle so far and
/// `syncs` counts the flushes that completed. A failed append or flush
/// reports `SinkError::Io` and leaves the logical contents as they were.
pub trait Handle {
    /// The bytes written through this handle so far.
    spec fn bytes(&self) -> Seq<u8>;

    /// How many flushes have completed on this handle.
    spec fn syncs(&self) -> nat;

    /// Append `data` at the end of the output.
    fn append(&mut self, data: &Vec<u8>) -> (r: Result<(), SinkError>)
        ensures
            (match r {
                Ok(()) => final(self).bytes() == old(self).bytes() + data@ && final(self).syncs()
                    == old(self).syncs(),
                Err(e) => final(self).bytes() == old(self).bytes() && final(self).syncs() == old(
                    self).syncs() && e == SinkError::Io,
            }),
    ;

    /// Flush buffered output so that everything appended so far is durable.
    fn flush(&mut self) -> (r: Result<(), SinkError>)
        ensures
            final(self).bytes() == old(self).bytes(),
            (match r {
                Ok(()) => final(self).syncs() == old(self).syncs() + 1,
                Err(e) => final(self).syncs() == old(self).syncs() && e == SinkError::Io,
            }),
    ;
}

/// The capability that opens the configured path in create-or-truncate mode.
///
/// A freshly opened handle starts empty and unflushed; a path that cannot be
/// opened reports `SinkError::Io`.
pub trait FileOpener<H: Handle> {
    /// Open `path` for appending, truncating whatever was there.
    fn open(&self, path: &str) -> (r: Result<H, SinkError>)
        ensures
            (match r {
                Ok(handle) => handle.bytes() == Seq::<u8>::empty() && handle.syncs() == 0,
                Err(e) => e == SinkError::Io,
            }),
    ;
}

/// An in-memory handle: the output is a byte buffer in memory.
///
/// Faults can be injected so that hosts and tests can drive the sink through
/// its error paths without touching a real file.
pub struct MemHandle {
    data: Vec<u8>,
    flushes: u64,
    fail_appends: bool,
    fail_flushes: bool,
}

impl MemHandle {
    /// A fresh, empty, reliable handle.
    pub fn new() -> (r: MemHandle)
        ensures
            r.bytes() == Seq::<u8>::empty(),
            r.syncs() == 0,
    {
        MemHandle { data: Vec::new(), flushes: 0, fail_appends: false, fail_flushes: false }
    }

    /// A fresh, empty handle whose appends or flushes always fail.
    pub fn new_with_faults(fail_appends: bool, fail_flushes: bool) -> (r: MemHandle)
        ensures
            r.bytes() == Seq::<u8>::empty(),
            r.syncs() == 0,
    {
        MemHandle { data: Vec::new(), flushes: 0, fail_appends, fail_flushes }
    }

    /// The bytes written so far.
    pub fn contents(&self) -> (r: &Vec<u8>)
        ensures
            r@ == self.bytes(),
    {
        &self.data
    }

    /// How many flushes have completed.
    pub fn flush_count(&self) -> (r: u64)
        ensures
            r as nat == self.syncs(),
    {
        self.flushes
    }
}

impl Handle for MemHandle {
    closed spec fn bytes(&self) -> Seq<u8> {
        self.data@
    }

    closed spec fn syncs(&self) -> nat {
        self.flushes as nat
    }

    fn append(&mut self, data: &Vec<u8>) -> (r: Result<(), SinkError>) {
        if self.fail_appends {
            return Err(SinkError::Io);
        }
        let mut i: usize = 0;
        while i < data.len()
            invariant
                i <= data.len(),
                self.data@ == old(self).data@ + data@.take(i as int),
                self.flushes == old(self).flushes,
                self.fail_appends == old(self).fail_appends,
                self.fail_flushes == old(self).fail_flushes,
            decreases data.len() - i,
        {
            self.data.push(data[i]);
            i += 1;
            proof {
                assert(self.data@ =~= old(self).data@ + data@.take(i as int));
            }
        }
        proof {
            assert(self.data@ =~= old(self).data@ + data@);
        }
        Ok(())
    }

    fn flush(&mut self) -> (r: Result<(), SinkError>) {
        // A counter at its ceiling is reported as a fault rather than wrapped.
        if self.fail_flushes || self.flushes == u64::MAX {
            return Err(SinkError::Io);
        }
        self.flushes = self.flushes + 1;
        Ok(())
    }
}

/// An opener handing out in-memory handles, with injectable faults: it can
/// refuse to open at all, or hand out handles that fail their appends or
/// flushes.
pub struct MemOpener {
    pub fail_open: bool,
    pub fail_appends: bool,
    pub fail_flushes: bool,
}

impl MemOpener {
    /// An opener without any injected fault.
    pub fn reliable() -> (r: MemOpener)
        ensures
            !r.fail_open,
    {
        MemOpener { fail_open: false, fail_appends: false, fail_flushes: false }
    }
}

impl FileOpener<MemHandle> for MemOpener {
    fn open(&self, _path: &str) -> (r: Result<MemHandle, SinkError>) {
        if self.fail_open {
            Err(SinkError::Io)
        } else {
            Ok(MemHandle::new_with_faults(self.fail_appends, self.fail_flushes))
        }
    }
}

} // verus!
