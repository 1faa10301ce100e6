//! A small, local, durable task runtime for supervised agents.
//!
//! The library holds the runtime's logic: the typed capability boundary,
//! the journal of task events with its deterministic replay, and the
//! decisions of the runtime (start, step, effect, approval, finish).
//! Reading and writing the journal file is done around it.

pub mod capability;
pub mod journal;
pub mod jsonl;
pub mod runtime;
pub mod types;

pub use capability::{Capability, CapabilitySet, Effect};
pub use journal::{Journal, JournalError};
pub use runtime::{Runtime, RuntimeError};
pub use types::{ApprovalDecision, JournalEvent, TaskId, TaskSnapshot, TaskStatus};
