use vstd::prelude::*;

verus! {

/// A transparent operation performed on a stream of data.
pub trait Lambda: Sized {
    /// The result of [`Lambda::finish`] once the stream is done.
    type FinishResult;

    /// Observes one buffer of data that reached the downstream sink: the bytes
    /// that [`crate::Relay::observed_bytes`] gives after each accepted write.
    fn handle(&mut self, buf: &[u8]);

    /// Called once, when the relay has ended, to give the stage's result.
    fn finish(self) -> Self::FinishResult;
}

/// A stage that runs a handler on each forwarded buffer without altering the stream.
pub struct LambdaFilter<F> {
    handler: F,
}

impl<F: Lambda> LambdaFilter<F> {
    pub closed spec fn handler_spec(&self) -> F {
        self.handler
    }

    /// Creates a stage around the given handler.
    pub fn new(handler: F) -> (r: Self)
        ensures
            r.handler_spec() == handler,
    {
        LambdaFilter { handler }
    }

    /// Gives the handler back.
    pub fn into_handler(self) -> (r: F)
        ensures
            r == self.handler_spec(),
    {
        self.handler
    }
}

} // verus!
