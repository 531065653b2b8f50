//! The caller loop: one writer, reused for every payload sent. Idle:
//! nothing written since the last reset. Built: a finished region that was
//! not yet consumed; each send ends idle again.
use vstd::prelude::*;
use crate::fb::{sealed, FbOp};
use crate::payload::{encoded_region, fits, region, Payload};
use crate::writer::{Writer, WriterError};

verus! {

/// Why a delegated send failed: the writer refused, or the sink did.
#[derive(Debug, PartialEq, Eq)]
pub enum SendError<E> {
    Writer(WriterError),
    Sink(E),
}

/// What a delegated send returns once the sink returned `s`.
pub open spec fn sink_outcome<E>(s: Result<(), E>) -> Result<(), SendError<E>> {
    match s {
        Ok(()) => Ok(()),
        Err(e) => Err(SendError::Sink(e)),
    }
}

pub struct Server {
    builder: Writer,
}

impl Server {
    pub closed spec fn writer(&self) -> Writer {
        self.builder
    }

    pub open spec fn wf(&self) -> bool {
        self.writer().wf()
    }

    pub open spec fn is_idle(&self) -> bool {
        self.writer().is_fresh()
    }

    pub open spec fn is_built(&self) -> bool {
        sealed(self.writer().log())
    }

    pub fn new() -> (s: Server)
        ensures
            s.is_idle(),
    {
        Server { builder: Writer::new() }
    }

    /// A finished region is waiting to be consumed.
    pub fn built(&self) -> (r: bool)
        requires
            self.wf(),
        ensures
            r == self.is_built(),
    {
        self.builder.is_finished()
    }

    /// Encodes a payload and returns an owned copy of its region; the writer
    /// is reset and ready for the next payload. Refused while a region lent
    /// out earlier has not been released.
    pub fn send_payload(&mut self, payload: &Payload) -> (r: Result<Vec<u8>, WriterError>)
        requires
            old(self).wf(),
        ensures
            final(self).wf(),
            old(self).is_built() ==> r == Err::<Vec<u8>, WriterError>(WriterError::AlreadyFinished) && *final(self) == *old(self),
            !old(self).is_built() ==> {
                &&& final(self).is_idle()
                &&& (r is Ok <==> fits(old(self).writer().log(), payload@.len()))
                &&& r is Ok ==> r.unwrap()@ == region(old(self).writer().log(), payload@)
                &&& r is Err ==> r == Err::<Vec<u8>, WriterError>(WriterError::CapacityExceeded)
            },
            old(self).is_idle() ==> {
                &&& (r is Ok <==> fits(Seq::<FbOp>::empty(), payload@.len()))
                &&& r is Ok ==> r.unwrap()@ == encoded_region(payload@)
            },
    {
        payload.to_bytes(&mut self.builder)
    }

    /// Encodes a payload and hands its region to `sink` without a copy;
    /// then resets the writer, whatever the sink returned. Refused while
    /// the writer is finished and not yet released.
    pub fn send_payload_delegated<E, F>(&mut self, payload: &Payload, sink: F) -> (r: Result<(), SendError<E>>)
        where
            F: FnOnce(&[u8]) -> Result<(), E>,
        requires
            old(self).wf(),
            forall|b: &[u8]| #[trigger] sink.requires((b,)),
        ensures
            final(self).wf(),
            old(self).is_built() ==> r == Err::<(), SendError<E>>(SendError::Writer(WriterError::AlreadyFinished)) && *final(self) == *old(self),
            !old(self).is_built() ==> {
                &&& final(self).is_idle()
                &&& !fits(old(self).writer().log(), payload@.len()) ==> r == Err::<(), SendError<E>>(SendError::Writer(WriterError::CapacityExceeded))
                &&& fits(old(self).writer().log(), payload@.len()) ==> exists|b: &[u8], s: Result<(), E>| {
                    &&& b@ == region(old(self).writer().log(), payload@)
                    &&& b@.len() >= 4
                    &&& #[trigger] sink.ensures((b,), s)
                    &&& r == sink_outcome(s)
                }
            },
            old(self).is_idle() && fits(Seq::<FbOp>::empty(), payload@.len()) ==> exists|b: &[u8], s: Result<(), E>| {
                &&& b@ == encoded_region(payload@)
                &&& #[trigger] sink.ensures((b,), s)
                &&& r == sink_outcome(s)
            },
    {
        if self.builder.is_finished() {
            return Err(SendError::Writer(WriterError::AlreadyFinished));
        }
        let ghost log0 = self.builder.log();
        let outcome = match payload.to_bytes_delegated(&mut self.builder) {
            Ok(region) => {
                let s = sink(region);
                let out = match s {
                    Ok(()) => Ok(()),
                    Err(e) => Err(SendError::Sink(e)),
                };
                assert(region@ == crate::payload::region(log0, payload@) && sink.ensures((region,), s) && out == sink_outcome(s));
                out
            },
            Err(e) => Err(SendError::Writer(e)),
        };
        self.builder.reset();
        outcome
    }

    /// Ends a cycle: the region was consumed, or the cycle was abandoned.
    /// Resets the writer, so that every earlier handle becomes stale.
    pub fn release(&mut self)
        requires
            old(self).wf(),
        ensures
            final(self).is_idle(),
    {
        self.builder.reset();
    }
}

} // verus!
