//! Rendezvous relay core: pairs two connections that name the same session
//! identifier and decides how frames are forwarded between them.
mod session_id;

pub use session_id::{check_session_id, SessionIdError, MAX_SESSION_ID_CHARS};
mod handoff;

pub use handoff::{hand_off, Delivery};
mod registry;

pub use registry::{Arrival, Registry, WaitOutcome, WAIT_BUDGET_SECS};
mod relay;

pub use relay::{Forwarder, LoopStep, ReadOutcome, Side, Teardown};
