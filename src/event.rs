use vstd::prelude::*;

verus! {

/// The size and alignment of one allocation request.
#[derive(Clone, Copy, PartialEq, Eq, Structural, Debug)]
pub struct Layout {
    pub size: usize,
    pub align: usize,
}

/// One recorded occurrence.
#[derive(Clone, PartialEq, Eq, Debug)]
pub enum AllocLog {
    /// An allocation without a trace; nothing produces it yet.
    Alloc(Layout),
    /// An allocation with the raw instruction pointers of its call stack,
    /// oldest frame first.
    Test(Layout, Vec<Option<usize>>),
    /// A placeholder.
    Empty,
}

impl Default for AllocLog {
    fn default() -> (r: AllocLog)
        ensures
            r is Empty,
    {
        AllocLog::Empty
    }
}

} // verus!
