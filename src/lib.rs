//! Chainable stream stages: the decision core of an in-process transform stage,
//! of a fan-out stage and of child-process wiring, and the failure model of
//! process-backed stages. Threads, pipes and processes are driven around it.

mod endpoint;
mod exit;
mod failure;
mod fanout;
mod lambda;
mod relay;
mod slot;

pub use endpoint::{adds_sink, child_wiring, ChildWiring, EndpointKind};
pub use exit::{ChildExit, ChildExitError, ChildExitErrorKind, ExitOutcome};
pub use failure::{settle, IoFailure, ThreadPanicked};
pub use fanout::{Fanout, FanoutPhase, TeeStep};
pub use lambda::{Lambda, LambdaFilter};
pub use relay::{Relay, RelayPhase, Signal};
pub use slot::PipeSlot;
