use vstd::prelude::*;
use crossbeam::queue::ArrayQueue;
use crate::event::AllocLog;

verus! {

#[verifier::external_type_specification]
#[verifier::external_body]
#[verifier::reject_recursive_types(T)]
pub struct ExArrayQueue<T>(ArrayQueue<T>);

/// The events a queue holds, oldest first.
pub uninterp spec fn queue_items(q: ArrayQueue<AllocLog>) -> Seq<AllocLog>;

/// The capacity a queue was made with.
pub uninterp spec fn queue_capacity(q: ArrayQueue<AllocLog>) -> nat;

/// Relies on `ArrayQueue::new`: an empty queue of the given capacity. It
/// panics on a zero capacity, and where `cap + 1` rounded up to a power of two
/// overflows.
#[verifier::external_body]
fn new_queue(cap: usize) -> (r: ArrayQueue<AllocLog>)
    requires
        0 < cap <= usize::MAX / 2,
    ensures
        queue_items(r) == Seq::<AllocLog>::empty(),
        queue_capacity(r) == cap,
{
    ArrayQueue::new(cap)
}

/// Relies on `ArrayQueue::push_mut`: a full queue hands the value back and
/// stays as it was; otherwise the value goes to the back.
#[verifier::external_body]
fn push_back(q: &mut ArrayQueue<AllocLog>, e: AllocLog) -> (r: Result<(), AllocLog>)
    ensures
        queue_capacity(*final(q)) == queue_capacity(*old(q)),
        queue_items(*old(q)).len() >= queue_capacity(*old(q)) ==> r is Err && r->Err_0 == e
            && queue_items(*final(q)) == queue_items(*old(q)),
        queue_items(*old(q)).len() < queue_capacity(*old(q)) ==> r is Ok
            && queue_items(*final(q)) == queue_items(*old(q)).push(e),
{
    q.push_mut(e)
}

/// Relies on `ArrayQueue::pop_mut`: the front value, or `None` on an empty
/// queue.
#[verifier::external_body]
fn pop_front(q: &mut ArrayQueue<AllocLog>) -> (r: Option<AllocLog>)
    ensures
        queue_capacity(*final(q)) == queue_capacity(*old(q)),
        queue_items(*old(q)).len() == 0 ==> r is None && queue_items(*final(q))
            == queue_items(*old(q)),
        queue_items(*old(q)).len() > 0 ==> r == Some(queue_items(*old(q))[0])
            && queue_items(*final(q)) == queue_items(*old(q)).drop_first(),
{
    q.pop_mut()
}

/// Relies on `ArrayQueue::is_empty`: whether the queue holds nothing.
#[verifier::external_body]
fn queue_is_empty(q: &ArrayQueue<AllocLog>) -> (r: bool)
    ensures
        r == (queue_items(*q).len() == 0),
{
    q.is_empty()
}

/// Relies on `ArrayQueue::is_full`: whether the queue holds as many values as
/// its capacity.
#[verifier::external_body]
fn queue_is_full(q: &ArrayQueue<AllocLog>) -> (r: bool)
    ensures
        r == (queue_items(*q).len() == queue_capacity(*q)),
{
    q.is_full()
}

/// The capacity of the process-wide event queue.
pub const ALLOC_LOG_SIZE: usize = 4096;

/// The event queue, absent until the first allocation constructs it, and the
/// flag that marks its construction as under way.
pub struct EventLog {
    queue: Option<ArrayQueue<AllocLog>>,
    initializing: bool,
}

impl EventLog {
    /// The events queued, oldest first; `None` before construction.
    pub closed spec fn items(&self) -> Option<Seq<AllocLog>> {
        match self.queue {
            Some(q) => Some(queue_items(q)),
            None => None,
        }
    }

    /// Whether construction of the queue has been started.
    pub closed spec fn initializing(&self) -> bool {
        self.initializing
    }

    /// The events queued once `ensure_init` has run.
    pub open spec fn items_after_init(&self) -> Option<Seq<AllocLog>> {
        if self.items() is None && !self.initializing() {
            Some(Seq::empty())
        } else {
            self.items()
        }
    }

    /// A constructed queue has the fixed capacity and holds no more than it.
    pub closed spec fn wf(&self) -> bool {
        match self.queue {
            Some(q) => queue_capacity(q) == ALLOC_LOG_SIZE && queue_items(q).len()
                <= ALLOC_LOG_SIZE,
            None => true,
        }
    }

    pub fn new() -> (r: EventLog)
        ensures
            r.wf(),
            r.items() is None,
            !r.initializing(),
    {
        EventLog { queue: None, initializing: false }
    }

    /// Whether the queue has been constructed.
    pub fn is_initialized(&self) -> (r: bool)
        ensures
            r == (self.items() is Some),
    {
        self.queue.is_some()
    }

    /// Whether the queue has been constructed and has room for one more event.
    pub fn can_push(&self) -> (r: bool)
        requires
            self.wf(),
        ensures
            r == (self.items() is Some && self.items()->0.len() < ALLOC_LOG_SIZE),
    {
        match &self.queue {
            Some(q) => !queue_is_full(q),
            None => false,
        }
    }

    /// Constructs the queue, empty, where it is absent and no construction has
    /// been started; otherwise changes nothing.
    pub fn ensure_init(&mut self)
        requires
            old(self).wf(),
        ensures
            final(self).wf(),
            old(self).items() is None && !old(self).initializing() ==> final(self).items()
                == Some(Seq::<AllocLog>::empty()) && final(self).initializing(),
            !(old(self).items() is None && !old(self).initializing()) ==> final(self).items()
                == old(self).items() && final(self).initializing() == old(self).initializing(),
    {
        if self.queue.is_none() && !self.initializing {
            self.initializing = true;
            self.queue = Some(new_queue(ALLOC_LOG_SIZE));
        }
    }
}

/// The events of a constructed queue after a push of `e`: at the back where
/// there is room, else unchanged.
pub open spec fn after_push(items: Seq<AllocLog>, e: AllocLog) -> Seq<AllocLog> {
    if items.len() < ALLOC_LOG_SIZE {
        items.push(e)
    } else {
        items
    }
}

/// The events of a constructed queue after pushes of `es`, in order.
pub open spec fn after_pushes(items: Seq<AllocLog>, es: Seq<AllocLog>) -> Seq<AllocLog>
    decreases es.len(),
{
    if es.len() == 0 {
        items
    } else {
        after_push(after_pushes(items, es.drop_last()), es.last())
    }
}

/// Events pushed one by one into a constructed, empty queue, no more than it
/// holds, come out of it in the order they went in.
pub proof fn lemma_fifo(es: Seq<AllocLog>)
    requires
        es.len() <= ALLOC_LOG_SIZE,
    ensures
        after_pushes(Seq::empty(), es) == es,
    decreases es.len(),
{
    if es.len() > 0 {
        lemma_fifo(es.drop_last());
        assert(es.drop_last().push(es.last()) =~= es);
    }
}

/// Pushes `entry` to the back of the queue, which must be constructed and
/// not full.
pub fn add_log_entry(log: &mut EventLog, entry: AllocLog)
    requires
        old(log).wf(),
        old(log).items() is Some,
        old(log).items()->0.len() < ALLOC_LOG_SIZE,
    ensures
        final(log).wf(),
        final(log).initializing() == old(log).initializing(),
        final(log).items() == Some(after_push(old(log).items()->0, entry)),
        final(log).items() == Some(old(log).items()->0.push(entry)),
{
    match &mut log.queue {
        Some(q) => {
            let _ = push_back(q, entry);
        },
        None => {},
    }
}

impl EventLog {
    /// Pops every queued event, oldest first, leaving the queue empty.
    /// The queue must be constructed.
    pub fn take_all(&mut self) -> (r: Vec<AllocLog>)
        requires
            old(self).wf(),
            old(self).items() is Some,
        ensures
            final(self).wf(),
            final(self).initializing() == old(self).initializing(),
            r@ == old(self).items()->0,
            final(self).items() == Some(Seq::<AllocLog>::empty()),
    {
        let mut out: Vec<AllocLog> = Vec::new();
        match &mut self.queue {
            Some(q) => {
                let ghost start = queue_items(*q);
                while !queue_is_empty(q)
                    invariant
                        out@ + queue_items(*q) == start,
                        queue_capacity(*q) == ALLOC_LOG_SIZE,
                        start.len() <= ALLOC_LOG_SIZE,
                    decreases queue_items(*q).len(),
                {
                    let ghost before = queue_items(*q);
                    if let Some(e) = pop_front(q) {
                        out.push(e);
                        assert(out@ + queue_items(*q) =~= start) by {
                            assert(before =~= seq![before[0]] + before.drop_first());
                        }
                    }
                }
                assert(out@ + queue_items(*q) =~= out@);
            },
            None => {},
        }
        out
    }
}

} // verus!
