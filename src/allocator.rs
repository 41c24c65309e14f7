use vstd::prelude::*;
use crate::event::{AllocLog, Layout};
use crate::flags::AllocFlags;
use crate::guard::Guard;
use crate::queue::{add_log_entry, EventLog, ALLOC_LOG_SIZE};
use crate::symbols::{capture_trace, oldest_first};

verus! {

/// An allocator that records allocations before handing them to `inner`.
pub struct AllocImpl<A> {
    pub inner: A,
}

impl<A> AllocImpl<A> {
    /// The allocator that does the memory work.
    pub closed spec fn inner_spec(&self) -> A {
        self.inner
    }

    pub fn new(inner: A) -> (r: Self)
        ensures
            r.inner_spec() == inner,
    {
        Self { inner }
    }

    pub fn inner(&self) -> (r: &A)
        ensures
            *r == self.inner_spec(),
    {
        &self.inner
    }
}

/// What an allocation does besides the memory work.
#[derive(Clone, Copy, PartialEq, Eq, Structural, Debug)]
pub enum AllocAction {
    /// The allocation is fatal.
    Forbidden,
    /// The allocation is recorded with its stack trace.
    Record,
    /// The allocation goes through unrecorded.
    Pass,
}

/// Forbidden wins; recording needs the enabled member and no suppression.
pub open spec fn action_of(mode: AllocFlags) -> AllocAction {
    if mode.forbidden {
        AllocAction::Forbidden
    } else if mode.enabled && !mode.disabled {
        AllocAction::Record
    } else {
        AllocAction::Pass
    }
}

pub fn alloc_action(mode: AllocFlags) -> (r: AllocAction)
    ensures
        r == action_of(mode),
{
    if mode.forbidden {
        AllocAction::Forbidden
    } else if mode.enabled && !mode.disabled {
        AllocAction::Record
    } else {
        AllocAction::Pass
    }
}

/// Why an allocation may not proceed.
#[derive(Clone, Copy, PartialEq, Eq, Structural, Debug)]
pub enum AllocError {
    /// The thread's flags forbid allocation.
    Forbidden,
    /// The queue was not there to take the event.
    NotInitialized,
    /// The queue was full.
    QueueFull,
}

/// `after` is `before` with one more event at the back, a trace of `layout`
/// whose addresses are a stack walk's, oldest frame first.
pub open spec fn is_record_of(after: Seq<AllocLog>, before: Seq<AllocLog>, layout: Layout) -> bool {
    &&& after.len() == before.len() + 1
    &&& after.drop_last() == before
    &&& after.last() is Test
    &&& after.last()->Test_0 == layout
    &&& exists|ips: Seq<usize>| after.last()->Test_1@ == oldest_first(ips)
}

/// The bookkeeping of one allocation of `layout` by a thread whose flags are
/// `mode`: constructs the queue where needed, then fails where allocation is
/// forbidden, or records a trace with recording suppressed where recording
/// is on.
pub fn record_alloc(mode: &mut AllocFlags, log: &mut EventLog, layout: Layout) -> (r: Result<
    (),
    AllocError,
>)
    requires
        old(log).wf(),
    ensures
        final(log).wf(),
        *final(mode) == *old(mode),
        final(log).initializing() == (old(log).initializing() || old(log).items() is None),
        !old(mode).enabled ==> final(log).items() == old(log).items_after_init(),
        action_of(*old(mode)) is Forbidden ==> r == Err::<(), AllocError>(AllocError::Forbidden)
            && final(log).items() == old(log).items_after_init(),
        action_of(*old(mode)) is Pass ==> r is Ok && final(log).items()
            == old(log).items_after_init(),
        action_of(*old(mode)) is Record && old(log).items_after_init() is None ==> r == Err::<
            (),
            AllocError,
        >(AllocError::NotInitialized) && final(log).items() is None,
        action_of(*old(mode)) is Record && old(log).items_after_init() is Some
            && old(log).items_after_init()->0.len() >= ALLOC_LOG_SIZE ==> r == Err::<
            (),
            AllocError,
        >(AllocError::QueueFull) && final(log).items() == old(log).items_after_init(),
        action_of(*old(mode)) is Record && old(log).items_after_init() is Some
            && old(log).items_after_init()->0.len() < ALLOC_LOG_SIZE ==> r is Ok
            && final(log).items() is Some && is_record_of(
            final(log).items()->0,
            old(log).items_after_init()->0,
            layout,
        ),
{
    log.ensure_init();
    match alloc_action(*mode) {
        AllocAction::Forbidden => Err(AllocError::Forbidden),
        AllocAction::Pass => Ok(()),
        AllocAction::Record => {
            if !log.is_initialized() {
                return Err(AllocError::NotInitialized);
            }
            if !log.can_push() {
                return Err(AllocError::QueueFull);
            }
            let g = Guard::new(mode, AllocFlags::log_disabled());
            let trace = capture_trace();
            let entry = AllocLog::Test(layout, trace);
            let ghost e = entry;
            let ghost before = log.items();
            add_log_entry(log, entry);
            g.release(mode);
            proof {
                assert(before->0.push(e).drop_last() =~= before->0);
            }
            Ok(())
        },
    }
}

} // verus!
