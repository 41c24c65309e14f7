use vstd::prelude::*;
use crate::event::{AllocLog, Layout};
use crate::flags::AllocFlags;
use crate::guard::Guard;
use crate::queue::EventLog;
use crate::symbols::{is_internal_frame, is_symbolization, symbolize};

verus! {

/// One line of a dump: the request and the shown names of its stack.
pub struct DumpLine {
    pub layout: Layout,
    pub names: Vec<String>,
}

/// The layout and addresses of each trace event of `s`, in order.
pub open spec fn trace_events(s: Seq<AllocLog>) -> Seq<(Layout, Seq<Option<usize>>)>
    decreases s.len(),
{
    if s.len() == 0 {
        Seq::empty()
    } else {
        let prev = trace_events(s.drop_last());
        match s.last() {
            AllocLog::Test(l, bt) => prev.push((l, bt@)),
            _ => prev,
        }
    }
}

/// Line `i` is the symbolicated form of trace event `i`, for every line.
pub open spec fn lines_match(lines: Seq<DumpLine>, events: Seq<(Layout, Seq<Option<usize>>)>) -> bool {
    &&& lines.len() == events.len()
    &&& forall|i: int|
        0 <= i < lines.len() ==> #[trigger] lines[i].layout == events[i].0 && is_symbolization(
            lines[i].names@,
            events[i].1,
        )
}

/// No line shows an internal name.
pub open spec fn lines_shown(lines: Seq<DumpLine>) -> bool {
    forall|i: int, k: int|
        0 <= i < lines.len() && 0 <= k < lines[i].names@.len() ==> !is_internal_frame(
            #[trigger] lines[i].names@[k]@,
        )
}

/// Drains the queue, which must be constructed, with recording suppressed,
/// and symbolicates each trace event, oldest first; other events give no
/// line. Leaving the suppressed scope removes the disabled member whatever
/// set it.
pub fn dump_alloc(mode: &mut AllocFlags, log: &mut EventLog) -> (r: Vec<DumpLine>)
    requires
        old(log).wf(),
        old(log).items() is Some,
    ensures
        final(log).wf(),
        final(log).initializing() == old(log).initializing(),
        *final(mode) == old(mode).spec_difference(AllocFlags::log_disabled_spec()),
        final(log).items() == Some(Seq::<AllocLog>::empty()),
        lines_match(r@, trace_events(old(log).items()->0)),
        lines_shown(r@),
{
    let g = Guard::new(mode, AllocFlags::log_disabled());
    let entries = log.take_all();
    let mut lines: Vec<DumpLine> = Vec::new();
    let mut i: usize = 0;
    while i < entries.len()
        invariant
            i <= entries.len(),
            lines_match(lines@, trace_events(entries@.take(i as int))),
            lines_shown(lines@),
        decreases entries.len() - i,
    {
        assert(entries@.take(i as int + 1).drop_last() =~= entries@.take(i as int));
        let ghost prev = lines@;
        match &entries[i] {
            AllocLog::Test(layout, bt) => {
                let names = symbolize(bt);
                lines.push(DumpLine { layout: *layout, names });
                proof {
                    let ev = trace_events(entries@.take(i as int + 1));
                    assert forall|k: int| 0 <= k < lines@.len() implies #[trigger] lines@[k].layout
                        == ev[k].0 && is_symbolization(lines@[k].names@, ev[k].1) by {
                        if k < prev.len() {
                            assert(lines@[k] == prev[k]);
                        }
                    }
                }
            },
            _ => {},
        }
        i += 1;
    }
    assert(entries@.take(entries.len() as int) =~= entries@);
    g.release(mode);
    lines
}

} // verus!
