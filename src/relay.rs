use vstd::prelude::*;
use vstd::slice::slice_subrange;

use crate::failure::IoFailure;

verus! {

/// Where a relay stands between two events.
#[derive(Debug, Clone, Copy, PartialEq, Eq, Structural)]
pub enum RelayPhase {
    /// Everything read so far reached the sink: the next event is a read.
    Reading,
    /// Some bytes read are not yet accepted by the sink: the next event is a write.
    Writing,
    /// The sink just accepted a run of bytes, to be handed to the handler
    /// before the copy goes on.
    Observing,
    /// The source reported end of data.
    Ended,
    /// A read or a write failed.
    Failed,
}

/// What the driver of a relay does next.
#[derive(Debug, PartialEq, Eq)]
pub enum Signal {
    /// Read from the source and report the bytes with `on_read`.
    Read,
    /// Offer `unwritten_bytes()` to the sink and report the count with `on_write`.
    Write,
    /// Hand `observed_bytes()` to the handler, then call `resume`.
    Observe,
    /// The stream is complete: the handler's finish hook gives the result.
    Ended,
    /// The copy stopped on this failure; the finish hook is not called.
    Failed(IoFailure),
}

/// The copy loop of an in-process transform stage: bytes are read from a source
/// and written to a sink. After each write, exactly the run of bytes that the
/// sink accepted is handed out for the handler, and nothing after a failed write.
pub struct Relay {
    pending: Vec<u8>,
    mark: usize,
    start: usize,
    phase: RelayPhase,
    taken: Ghost<Seq<u8>>,
    accepted: Ghost<Seq<u8>>,
}

impl Relay {
    /// Where the relay stands.
    pub closed spec fn phase(&self) -> RelayPhase {
        self.phase
    }

    /// Every byte read from the source so far, in order.
    pub closed spec fn taken(&self) -> Seq<u8> {
        self.taken@
    }

    /// Every byte that the sink accepted so far, in order; the runs handed out
    /// for the handler, joined.
    pub closed spec fn accepted(&self) -> Seq<u8> {
        self.accepted@
    }

    /// The bytes read and not yet accepted by the sink.
    pub closed spec fn unwritten(&self) -> Seq<u8> {
        self.pending@.subrange(self.start as int, self.pending@.len() as int)
    }

    /// The run of bytes that the last write had accepted.
    pub closed spec fn last_run(&self) -> Seq<u8> {
        self.pending@.subrange(self.mark as int, self.start as int)
    }

    pub closed spec fn wf(&self) -> bool {
        &&& self.mark <= self.start <= self.pending@.len()
        &&& (self.phase == RelayPhase::Reading || self.phase == RelayPhase::Ended) ==> self.start
            == self.pending@.len()
        &&& self.phase == RelayPhase::Writing ==> self.start < self.pending@.len()
        &&& self.phase == RelayPhase::Observing ==> self.mark < self.start
        &&& self.taken@ == self.accepted@ + self.unwritten()
    }

    /// A relay that has read nothing yet.
    pub fn new() -> (r: Self)
        ensures
            r.wf(),
            r.phase() == RelayPhase::Reading,
            r.taken() == Seq::<u8>::empty(),
            r.accepted() == Seq::<u8>::empty(),
    {
        let r = Relay {
            pending: Vec::new(),
            mark: 0,
            start: 0,
            phase: RelayPhase::Reading,
            taken: Ghost(Seq::empty()),
            accepted: Ghost(Seq::empty()),
        };
        assert(r.unwritten() =~= Seq::<u8>::empty());
        r
    }

    /// The bytes to offer to the sink next.
    pub fn unwritten_bytes(&self) -> (r: &[u8])
        requires
            self.wf(),
        ensures
            r@ == self.unwritten(),
    {
        slice_subrange(self.pending.as_slice(), self.start, self.pending.len())
    }

    /// The run of bytes that the sink just accepted, for the handler.
    pub fn observed_bytes(&self) -> (r: &[u8])
        requires
            self.wf(),
            self.phase() == RelayPhase::Observing,
        ensures
            r@ == self.last_run(),
    {
        slice_subrange(self.pending.as_slice(), self.mark, self.start)
    }

    /// Takes in what a read from the source gave: bytes, possibly none (end of
    /// data), or a failure. An interrupted read changes nothing and is retried.
    pub fn on_read(&mut self, got: Result<Vec<u8>, IoFailure>) -> (s: Signal)
        requires
            old(self).wf(),
            old(self).phase() == RelayPhase::Reading,
        ensures
            final(self).wf(),
            final(self).accepted() == old(self).accepted(),
            final(self).taken() == final(self).accepted() + final(self).unwritten(),
            match got {
                Ok(b) => if b@.len() == 0 {
                    &&& s is Ended
                    &&& final(self).phase() == RelayPhase::Ended
                    &&& final(self).taken() == old(self).taken()
                } else {
                    &&& s is Write
                    &&& final(self).phase() == RelayPhase::Writing
                    &&& final(self).taken() == old(self).taken() + b@
                    &&& final(self).unwritten() == b@
                },
                Err(IoFailure::Interrupted) => {
                    &&& s is Read
                    &&& final(self).phase() == RelayPhase::Reading
                    &&& final(self).taken() == old(self).taken()
                },
                Err(e) => {
                    &&& s == Signal::Failed(e)
                    &&& final(self).phase() == RelayPhase::Failed
                    &&& final(self).taken() == old(self).taken()
                },
            },
    {
        match got {
            Ok(b) => {
                if b.len() == 0 {
                    self.phase = RelayPhase::Ended;
                    Signal::Ended
                } else {
                    self.taken = Ghost(self.taken@ + b@);
                    self.pending = b;
                    self.mark = 0;
                    self.start = 0;
                    self.phase = RelayPhase::Writing;
                    assert(self.unwritten() =~= self.pending@);
                    Signal::Write
                }
            },
            Err(IoFailure::Interrupted) => Signal::Read,
            Err(e) => {
                self.phase = RelayPhase::Failed;
                Signal::Failed(e)
            },
        }
    }

    /// Takes in what a write of `unwritten_bytes()` to the sink gave: the count
    /// of bytes accepted, or a failure. After an accepted write exactly those
    /// bytes are to be handed to the handler; a failed write hands it nothing.
    /// An interrupted write changes nothing and is retried; a write that accepts
    /// nothing is a failure.
    pub fn on_write(&mut self, put: Result<usize, IoFailure>) -> (s: Signal)
        requires
            old(self).wf(),
            old(self).phase() == RelayPhase::Writing,
            put matches Ok(k) ==> k <= old(self).unwritten().len(),
        ensures
            final(self).wf(),
            final(self).taken() == old(self).taken(),
            final(self).taken() == final(self).accepted() + final(self).unwritten(),
            match put {
                Ok(k) => if k == 0 {
                    &&& s == Signal::Failed(IoFailure::WriteZero)
                    &&& final(self).phase() == RelayPhase::Failed
                    &&& final(self).accepted() == old(self).accepted()
                } else {
                    &&& s is Observe
                    &&& final(self).phase() == RelayPhase::Observing
                    &&& final(self).last_run() == old(self).unwritten().take(k as int)
                    &&& final(self).accepted() == old(self).accepted() + final(self).last_run()
                    &&& final(self).unwritten() == old(self).unwritten().skip(k as int)
                },
                Err(IoFailure::Interrupted) => {
                    &&& s is Write
                    &&& final(self).phase() == RelayPhase::Writing
                    &&& final(self).accepted() == old(self).accepted()
                },
                Err(e) => {
                    &&& s == Signal::Failed(e)
                    &&& final(self).phase() == RelayPhase::Failed
                    &&& final(self).accepted() == old(self).accepted()
                },
            },
    {
        match put {
            Ok(k) => {
                if k == 0 {
                    self.phase = RelayPhase::Failed;
                    Signal::Failed(IoFailure::WriteZero)
                } else {
                    let ghost before = self.unwritten();
                    assert(before.len() == self.pending@.len() - self.start);
                    let len = self.pending.len();
                    assert(self.start + k <= len);
                    let end = self.start + k;
                    self.mark = self.start;
                    self.start = end;
                    self.phase = RelayPhase::Observing;
                    assert(self.last_run() =~= before.take(k as int));
                    self.accepted = Ghost(self.accepted@ + self.last_run());
                    assert(self.unwritten() =~= before.skip(k as int));
                    assert(before =~= before.take(k as int) + before.skip(k as int));
                    assert(self.taken@ =~= self.accepted@ + self.unwritten());
                    Signal::Observe
                }
            },
            Err(IoFailure::Interrupted) => Signal::Write,
            Err(e) => {
                self.phase = RelayPhase::Failed;
                Signal::Failed(e)
            },
        }
    }

    /// Goes on after the handler has been handed the accepted run: writes the
    /// rest of the bytes read, or reads again once all were accepted.
    pub fn resume(&mut self) -> (s: Signal)
        requires
            old(self).wf(),
            old(self).phase() == RelayPhase::Observing,
        ensures
            final(self).wf(),
            final(self).taken() == old(self).taken(),
            final(self).accepted() == old(self).accepted(),
            final(self).unwritten() == old(self).unwritten(),
            old(self).unwritten().len() == 0 ==> s is Read && final(self).phase()
                == RelayPhase::Reading,
            old(self).unwritten().len() > 0 ==> s is Write && final(self).phase()
                == RelayPhase::Writing,
    {
        if self.start == self.pending.len() {
            self.phase = RelayPhase::Reading;
            Signal::Read
        } else {
            self.phase = RelayPhase::Writing;
            Signal::Write
        }
    }
}

/// Once the source has ended, the sink has accepted exactly the bytes that were
/// read, in order, and so the runs handed out for the handler, joined, are
/// exactly those bytes.
pub proof fn lemma_ended_relay_forwarded_all(r: &Relay)
    requires
        r.wf(),
        r.phase() == RelayPhase::Ended,
    ensures
        r.accepted() == r.taken(),
{
    assert(r.unwritten() =~= Seq::<u8>::empty());
    assert(r.taken() =~= r.accepted());
}

} // verus!
