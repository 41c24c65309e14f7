//! Allocation tracing: per-thread mode flags with scoped guards, a bounded
//! event queue filled on allocation, and a symbolicating dump.

mod allocator;
mod dump;
mod event;
mod flags;
mod guard;
mod queue;
mod symbols;

pub use allocator::{alloc_action, record_alloc, AllocAction, AllocError, AllocImpl};
pub use dump::{dump_alloc, DumpLine};
pub use event::{AllocLog, Layout};
pub use flags::AllocFlags;
pub use guard::{forbid, no_log, Guard};
pub use queue::{add_log_entry, EventLog, ALLOC_LOG_SIZE};
pub use symbols::{
    capture_trace, frames_oldest_first, join_names, keep_symbol_name, symbolize, trace_names,
};
