use vstd::prelude::*;

verus! {

/// A per-thread set of mode bits: recording suppressed, recording enabled,
/// allocation forbidden. Members combine freely.
#[derive(Clone, Copy, PartialEq, Eq, Structural, Debug)]
pub struct AllocFlags {
    pub disabled: bool,
    pub enabled: bool,
    pub forbidden: bool,
}

impl AllocFlags {
    /// Every member of `self` or of `o`.
    pub open spec fn spec_union(self, o: AllocFlags) -> AllocFlags {
        AllocFlags {
            disabled: self.disabled || o.disabled,
            enabled: self.enabled || o.enabled,
            forbidden: self.forbidden || o.forbidden,
        }
    }

    /// Every member of `self` that is not a member of `o`.
    pub open spec fn spec_difference(self, o: AllocFlags) -> AllocFlags {
        AllocFlags {
            disabled: self.disabled && !o.disabled,
            enabled: self.enabled && !o.enabled,
            forbidden: self.forbidden && !o.forbidden,
        }
    }

    /// Every member of `o` is a member of `self`.
    pub open spec fn spec_contains(self, o: AllocFlags) -> bool {
        &&& (o.disabled ==> self.disabled)
        &&& (o.enabled ==> self.enabled)
        &&& (o.forbidden ==> self.forbidden)
    }

    pub fn empty() -> (r: AllocFlags)
        ensures
            r == (AllocFlags { disabled: false, enabled: false, forbidden: false }),
    {
        AllocFlags { disabled: false, enabled: false, forbidden: false }
    }

    /// The single member that suppresses recording.
    pub fn log_disabled() -> (r: AllocFlags)
        ensures
            r == (AllocFlags { disabled: true, enabled: false, forbidden: false }),
    {
        AllocFlags { disabled: true, enabled: false, forbidden: false }
    }

    /// The single member that turns recording on.
    pub fn log_enabled() -> (r: AllocFlags)
        ensures
            r == (AllocFlags { disabled: false, enabled: true, forbidden: false }),
    {
        AllocFlags { disabled: false, enabled: true, forbidden: false }
    }

    /// The single member that makes every allocation fatal.
    pub fn forbid() -> (r: AllocFlags)
        ensures
            r == (AllocFlags { disabled: false, enabled: false, forbidden: true }),
    {
        AllocFlags { disabled: false, enabled: false, forbidden: true }
    }

    /// The flags a thread starts with.
    pub fn initial() -> (r: AllocFlags)
        ensures
            r == AllocFlags::log_disabled_spec(),
    {
        AllocFlags::log_disabled()
    }

    pub open spec fn spec_empty() -> AllocFlags {
        AllocFlags { disabled: false, enabled: false, forbidden: false }
    }

    pub open spec fn log_disabled_spec() -> AllocFlags {
        AllocFlags { disabled: true, enabled: false, forbidden: false }
    }

    pub open spec fn forbid_spec() -> AllocFlags {
        AllocFlags { disabled: false, enabled: false, forbidden: true }
    }

    pub fn contains(&self, o: AllocFlags) -> (r: bool)
        ensures
            r == self.spec_contains(o),
    {
        (!o.disabled || self.disabled) && (!o.enabled || self.enabled) && (!o.forbidden
            || self.forbidden)
    }

    pub fn union(&self, o: AllocFlags) -> (r: AllocFlags)
        ensures
            r == self.spec_union(o),
    {
        AllocFlags {
            disabled: self.disabled || o.disabled,
            enabled: self.enabled || o.enabled,
            forbidden: self.forbidden || o.forbidden,
        }
    }

    /// Adds every member of `o`.
    pub fn insert(&mut self, o: AllocFlags)
        ensures
            *final(self) == old(self).spec_union(o),
    {
        *self = self.union(o);
    }

    /// Removes every member of `o`, whatever added it.
    pub fn remove(&mut self, o: AllocFlags)
        ensures
            *final(self) == old(self).spec_difference(o),
    {
        *self = AllocFlags {
            disabled: self.disabled && !o.disabled,
            enabled: self.enabled && !o.enabled,
            forbidden: self.forbidden && !o.forbidden,
        };
    }
}

} // verus!
