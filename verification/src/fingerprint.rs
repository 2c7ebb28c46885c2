//! Freshness fingerprints: the (modification time, byte size) identity of a
//! file's on-disk state at the moment it was cached.

use vstd::prelude::*;

verus! {

/// An immutable (modification time, byte size) pair identifying a file's
/// on-disk state.  Fingerprints are compared by equality alone: a difference
/// in either field means the cached entries for the file are stale.
#[derive(Clone, Copy, Debug, PartialEq, Eq, Structural)]
pub struct Fingerprint {
    /// Whole seconds of the modification time, counted from the platform's
    /// epoch.
    pub mtime_secs: u64,
    /// Sub-second nanoseconds of the modification time.
    pub mtime_nanos: u32,
    /// File size in bytes.
    pub size: u64,
}

impl Fingerprint {
    /// Build a fingerprint from its parts.
    pub fn new(mtime_secs: u64, mtime_nanos: u32, size: u64) -> (r: Fingerprint)
        ensures
            r == (Fingerprint { mtime_secs, mtime_nanos, size }),
    {
        Fingerprint { mtime_secs, mtime_nanos, size }
    }

    /// The fingerprint as the plain triple the fingerprint store holds.
    pub open spec fn spec_triple(self) -> (u64, u32, u64) {
        (self.mtime_secs, self.mtime_nanos, self.size)
    }

    /// The fingerprint as a plain triple.
    pub fn triple(&self) -> (r: (u64, u32, u64))
        ensures
            r == self.spec_triple(),
    {
        (self.mtime_secs, self.mtime_nanos, self.size)
    }
}

/// Whether a file now bearing `current` on disk is stale against the cached
/// triple, if any: an absent cached fingerprint forces a first-time load,
/// and any difference in either field forces a reload.
pub fn is_stale(cached: &Option<(u64, u32, u64)>, current: &Fingerprint) -> (r: bool)
    ensures
        r == (*cached != Some(current.spec_triple())),
{
    match cached {
        Option::None => true,
        Option::Some(t) => {
            let fresh = t.0 == current.mtime_secs && t.1 == current.mtime_nanos && t.2
                == current.size;
            proof {
                if fresh {
                    assert(*t == current.spec_triple());
                }
            }
            !fresh
        },
    }
}

} // verus!
