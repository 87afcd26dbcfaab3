//! The byte channel that carries messages to and from a reader.

use vstd::prelude::*;

verus! {

/// Why a transport failed to move bytes.
#[derive(Debug)]
pub enum TransportError {
    Timeout,
    Disconnected,
    IoError(String),
}

/// One thing a transport did.
pub enum TransportEvent {
    /// `write_all` sent these bytes.
    Written(Seq<u8>),
    /// `write_all` was handed these bytes and failed with this error.
    WriteFailed(Seq<u8>, TransportError),
    /// `read_exact` filled its buffer with these bytes.
    Read(Seq<u8>),
    /// `read_exact` was asked for this many bytes and failed with this error.
    ReadFailed(usize, TransportError),
}

/// The model of a transport: everything it did, oldest first.
pub struct TransportTrace {
    pub events: Seq<TransportEvent>,
}

/// A byte channel to a reader, such as a serial port.
///
/// Its model is its trace: every write it was handed and every read it
/// served or failed, oldest first, with the bytes and errors involved.
/// Each implementation owes the two `ensures` below over its own trace:
/// what a read delivers is the reader's, and the trace records it as it came.
pub trait Transport {
    /// Everything this transport did, oldest first. The trace is a model for
    /// proofs: compiled code never asks for it, so an implementation outside
    /// the verified library may give it a body that never returns.
    spec fn trace(&self) -> TransportTrace;

    /// Fills `buf` with the next bytes from the reader. The buffer keeps its
    /// length; the trace gains the bytes delivered, or the failure.
    fn read_exact(&mut self, buf: &mut [u8]) -> (r: Result<(), TransportError>)
        ensures
            final(buf)@.len() == old(buf)@.len(),
            match r {
                Ok(()) => final(self).trace().events == old(self).trace().events.push(
                    TransportEvent::Read(final(buf)@),
                ),
                Err(e) => final(self).trace().events == old(self).trace().events.push(
                    TransportEvent::ReadFailed(old(buf)@.len() as usize, e),
                ),
            },
    ;

    /// Sends all of `buf` to the reader; the trace gains the bytes sent, or
    /// the bytes it was handed and the failure.
    fn write_all(&mut self, buf: &[u8]) -> (r: Result<(), TransportError>)
        ensures
            match r {
                Ok(()) => final(self).trace().events == old(self).trace().events.push(
                    TransportEvent::Written(buf@),
                ),
                Err(e) => final(self).trace().events == old(self).trace().events.push(
                    TransportEvent::WriteFailed(buf@, e),
                ),
            },
    ;
}

} // verus!
