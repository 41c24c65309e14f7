use vstd::prelude::*;
use crate::flags::AllocFlags;

verus! {

/// The handle of a scope that added some members to a thread's flags.
/// Releasing it removes exactly those members.
pub struct Guard(AllocFlags);

impl Guard {
    /// The members this guard's scope added.
    pub closed spec fn added(&self) -> AllocFlags {
        self.0
    }

    /// Enters a scope: adds `newmode` to `mode`.
    pub fn new(mode: &mut AllocFlags, newmode: AllocFlags) -> (r: Guard)
        ensures
            *final(mode) == old(mode).spec_union(newmode),
            r.added() == newmode,
    {
        mode.insert(newmode);
        Guard(newmode)
    }

    /// Leaves the scope: removes the members this guard added, also where an
    /// enclosing scope asked for them too.
    pub fn release(self, mode: &mut AllocFlags)
        ensures
            *final(mode) == old(mode).spec_difference(self.added()),
    {
        mode.remove(self.0);
    }
}

/// Entering a scope and leaving it leaves none of the scope's members in the
/// flags, whether or not they were there before.
pub proof fn lemma_release_clears(mode: AllocFlags, bit: AllocFlags)
    ensures
        mode.spec_union(bit).spec_difference(bit) == mode.spec_difference(bit),
        !mode.spec_union(bit).spec_difference(bit).spec_contains(bit) || bit == AllocFlags::spec_empty(),
{
}

/// Two nested scopes of the same members: leaving the inner one removes the
/// members though the outer scope is still open. Release does not count.
pub proof fn lemma_nested_release_not_counted(mode: AllocFlags, bit: AllocFlags)
    ensures
        ({
            let outer = mode.spec_union(bit);
            let inner = outer.spec_union(bit);
            let after_inner = inner.spec_difference(bit);
            &&& after_inner == mode.spec_difference(bit)
            &&& outer.spec_contains(bit)
            &&& (bit.disabled ==> !after_inner.disabled)
            &&& (bit.enabled ==> !after_inner.enabled)
            &&& (bit.forbidden ==> !after_inner.forbidden)
        }),
{
}

/// Runs `f` in a scope that adds `bit` to `mode`. `f` gets the flags in force
/// inside the scope and hands back its result with the flags at its end; the
/// scope then removes `bit`.
fn scoped<F, R>(mode: &mut AllocFlags, bit: AllocFlags, f: F) -> (r: R)
    where
        F: FnOnce(AllocFlags) -> (R, AllocFlags),
    requires
        f.requires((old(mode).spec_union(bit),)),
    ensures
        exists|inner_end: AllocFlags|
            f.ensures((old(mode).spec_union(bit),), (r, inner_end))
                && *final(mode) == inner_end.spec_difference(bit),
{
    let g = Guard::new(mode, bit);
    let (r, inner_end) = f(*mode);
    *mode = inner_end;
    g.release(mode);
    r
}

/// Runs `f` with recording suppressed: the disabled member is added for the
/// scope of `f` and removed after it.
pub fn no_log<F, R>(mode: &mut AllocFlags, f: F) -> (r: R)
    where
        F: FnOnce(AllocFlags) -> (R, AllocFlags),
    requires
        f.requires((old(mode).spec_union(AllocFlags::log_disabled_spec()),)),
    ensures
        exists|inner_end: AllocFlags|
            f.ensures((old(mode).spec_union(AllocFlags::log_disabled_spec()),), (r, inner_end))
                && *final(mode) == inner_end.spec_difference(AllocFlags::log_disabled_spec()),
        !final(mode).disabled,
{
    scoped(mode, AllocFlags::log_disabled(), f)
}

/// Runs `f` with allocation forbidden: the forbidden member is added for the
/// scope of `f` and removed after it.
pub fn forbid<F, R>(mode: &mut AllocFlags, f: F) -> (r: R)
    where
        F: FnOnce(AllocFlags) -> (R, AllocFlags),
    requires
        f.requires((old(mode).spec_union(AllocFlags::forbid_spec()),)),
    ensures
        exists|inner_end: AllocFlags|
            f.ensures((old(mode).spec_union(AllocFlags::forbid_spec()),), (r, inner_end))
                && *final(mode) == inner_end.spec_difference(AllocFlags::forbid_spec()),
        !final(mode).forbidden,
{
    scoped(mode, AllocFlags::forbid(), f)
}

} // verus!
