//! A cooperative scheduler for stackful execution contexts, and a queue-based
//! mutex built on its suspend/resume protocol.
//!
//! The scheduler's decisions are a state machine over its ready queue: one call
//! of `Scheduler::step` interprets what the running context asked for. The
//! context switch itself is done by whoever drives the scheduler.

pub mod lock;
pub mod queue;
pub mod scheduler;
mod spin_lock;

pub use lock::{LockAction, LockPhase, LockStep, Mutex, MutexGuard, MutexOp, WaitState};
pub use queue::{FifoQueue, Queue};
pub use scheduler::{Node, Request, Response, Scheduler, Stack, Thread, Unit, WaitQueue};
