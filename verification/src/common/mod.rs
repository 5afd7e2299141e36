//! Shared infrastructure: logical thread identifiers, executors and task
//! queues.

pub mod context;
pub mod executor;
pub mod id;
pub mod ideal;
pub mod keyed;
pub mod queue;
pub mod sync;

pub use context::{ContextError, ErrorKind};
pub use executor::{Children, DummyExecutor, DummyIo, MTContext, MTExecutor, STExecutor};
pub use id::{Counter, ThreadId};
pub use ideal::PendingCalls;
pub use queue::{RRQueue, SimpleQueue};
pub use sync::{Ticket, TicketQueue};
