use vstd::prelude::*;

verus! {

/// What one poll of the monitor enumeration calls for.
#[derive(Clone, Copy, Debug, PartialEq, Eq, Structural)]
pub enum PollDecision {
    /// The monitor count is what it was; nothing to do.
    Unchanged,
    /// The count changed and at least one wallpaper surface exists: the
    /// wallpaper set must be resynchronized.
    ChangedResync,
    /// The count changed but the wallpaper feature was never activated;
    /// the new count is recorded and no window is touched.
    ChangedIdle,
    /// Enumeration failed; treated as unchanged for this poll, to be
    /// logged as a transient [`crate::errors::SurfaceError::EnumerationError`].
    EnumerationFailed,
}

/// The monitor-topology watcher's state between polls: the monitor count
/// last observed. On a fixed interval the embedding application enumerates
/// the monitors and hands the outcome to [`TopologyWatcher::poll`], which
/// decides whether the wallpaper set must be resynchronized.
pub struct TopologyWatcher {
    pub last_count: usize,
}

impl TopologyWatcher {
    /// A watcher that has last seen `initial_count` monitors.
    pub fn new(initial_count: usize) -> (w: TopologyWatcher)
        ensures
            w.last_count == initial_count,
    {
        TopologyWatcher { last_count: initial_count }
    }

    /// Decides on the outcome of one enumeration. `observed` is the monitor
    /// count the enumeration produced, or nothing if it failed;
    /// `wallpaper_active` says whether any wallpaper surface currently
    /// exists. A failed enumeration and an unchanged count leave the
    /// watcher as it was; a changed count is recorded, and calls for a
    /// resynchronization exactly when the wallpaper feature is active.
    pub fn poll(&mut self, observed: Option<usize>, wallpaper_active: bool) -> (d: PollDecision)
        ensures
            match observed {
                Option::None => final(self).last_count == old(self).last_count
                    && d == PollDecision::EnumerationFailed,
                Option::Some(c) => {
                    if c == old(self).last_count {
                        final(self).last_count == old(self).last_count
                            && d == PollDecision::Unchanged
                    } else {
                        final(self).last_count == c && d == (if wallpaper_active {
                            PollDecision::ChangedResync
                        } else {
                            PollDecision::ChangedIdle
                        })
                    }
                },
            },
    {
        match observed {
            Option::None => PollDecision::EnumerationFailed,
            Option::Some(c) => {
                if c == self.last_count {
                    PollDecision::Unchanged
                } else {
                    self.last_count = c;
                    if wallpaper_active {
                        PollDecision::ChangedResync
                    } else {
                        PollDecision::ChangedIdle
                    }
                }
            },
        }
    }
}

} // verus!
