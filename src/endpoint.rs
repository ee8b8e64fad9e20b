use vstd::prelude::*;

verus! {

/// The four ways a stage may be given its input or output.
#[derive(Debug, Clone, Copy, PartialEq, Eq, Structural)]
pub enum EndpointKind {
    /// A file descriptor handed over to the stage, which closes it.
    Fd,
    /// An in-process byte stream.
    Stream,
    /// The stage is to create a pipe and hand its far end back.
    PipeRequested,
    /// Nothing: an input at end of data, an output that discards.
    Null,
}

/// How one standard stream of a child process is set up.
#[derive(Debug, Clone, Copy, PartialEq, Eq, Structural)]
pub enum ChildWiring {
    /// The process-level null device.
    Discard,
    /// A pipe that the child inherits directly, its far end handed back.
    Piped,
    /// The given descriptor, handed to the child as it is.
    Descriptor,
    /// A fresh pipe to the child, with a bridging thread copying between it
    /// and the in-process stream.
    Bridge,
}

/// The wiring of a child's standard stream for an endpoint.
pub open spec fn wiring_of(k: EndpointKind) -> ChildWiring {
    match k {
        EndpointKind::Fd => ChildWiring::Descriptor,
        EndpointKind::Stream => ChildWiring::Bridge,
        EndpointKind::PipeRequested => ChildWiring::Piped,
        EndpointKind::Null => ChildWiring::Discard,
    }
}

/// How a child's standard stream is wired for an endpoint: only an in-process
/// stream needs a bridging thread.
pub fn child_wiring(k: EndpointKind) -> (r: ChildWiring)
    ensures
        r == wiring_of(k),
        r == ChildWiring::Bridge <==> k == EndpointKind::Stream,
{
    match k {
        EndpointKind::Fd => ChildWiring::Descriptor,
        EndpointKind::Stream => ChildWiring::Bridge,
        EndpointKind::PipeRequested => ChildWiring::Piped,
        EndpointKind::Null => ChildWiring::Discard,
    }
}

/// Whether starting a fan-out with this output adds a sink: every output but
/// `Null` does.
pub fn adds_sink(k: EndpointKind) -> (r: bool)
    ensures
        r <==> k != EndpointKind::Null,
{
    match k {
        EndpointKind::Null => false,
        _ => true,
    }
}

} // verus!
