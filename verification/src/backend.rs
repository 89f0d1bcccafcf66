use vstd::prelude::*;
use crate::geometry::Geometry;
use crate::surface::LevelState;

verus! {

/// The capability interface to the operating system's window layer.
///
/// One implementation per platform performs the real native work: building
/// the window, re-parenting it into the shell's wallpaper layer or setting
/// its level constant, moving it, toggling its shadow, closing it. The
/// registry drives this interface and never touches a native handle itself.
/// Nothing is assumed about an implementation: every registry contract holds
/// whatever an implementation reports.
pub trait PlatformBackend {
    /// Creates the native window for `label`, loading `url`, at `geometry`,
    /// with the given shadow, shown, at the weak always-on-bottom
    /// placement. Reports whether the window came into being.
    fn create_window(
        &mut self,
        label: &String,
        url: &String,
        geometry: Geometry,
        shadow: bool,
    ) -> bool;

    /// Places the window carrying `label` at the requested compositor
    /// depth. Reports whether the placement took hold.
    fn apply_level(&mut self, label: &String, level: LevelState) -> bool;

    /// Moves and resizes the window carrying `label`.
    fn set_geometry(&mut self, label: &String, geometry: Geometry);

    /// Toggles the shadow of the window carrying `label`; a no-op on
    /// platforms without shadow control.
    fn set_shadow(&mut self, label: &String, enabled: bool);

    /// Shows or hides the window carrying `label`.
    fn set_visibility(&mut self, label: &String, visible: bool);

    /// Closes the window carrying `label`.
    fn close_window(&mut self, label: &String);
}

/// The fallback backend for builds with no matching platform: every
/// operation succeeds and nothing happens. Only the weak placements are
/// honoured, never true desktop attachment.
pub struct NoopBackend;

impl PlatformBackend for NoopBackend {
    fn create_window(
        &mut self,
        label: &String,
        url: &String,
        geometry: Geometry,
        shadow: bool,
    ) -> (created: bool)
        ensures
            created,
    {
        true
    }

    fn apply_level(&mut self, label: &String, level: LevelState) -> (applied: bool)
        ensures
            applied,
    {
        true
    }

    fn set_geometry(&mut self, label: &String, geometry: Geometry) {
    }

    fn set_shadow(&mut self, label: &String, enabled: bool) {
    }

    fn set_visibility(&mut self, label: &String, visible: bool) {
    }

    fn close_window(&mut self, label: &String) {
    }
}

/// A backend that performs no native work but counts every call and can be
/// told to fail window creation or leveling: the mock against which the
/// registry's native traffic is observed.
pub struct CountingBackend {
    pub create_calls: u64,
    pub level_calls: u64,
    pub geometry_calls: u64,
    pub shadow_calls: u64,
    pub visibility_calls: u64,
    pub close_calls: u64,
    /// When set, every `create_window` reports failure.
    pub refuse_creation: bool,
    /// When set, every `apply_level` reports failure.
    pub refuse_leveling: bool,
}

impl CountingBackend {
    /// A fresh counter with every count zero and no failure injected.
    pub fn new() -> (b: CountingBackend)
        ensures
            b.create_calls == 0,
            b.level_calls == 0,
            b.geometry_calls == 0,
            b.shadow_calls == 0,
            b.visibility_calls == 0,
            b.close_calls == 0,
            !b.refuse_creation,
            !b.refuse_leveling,
    {
        CountingBackend {
            create_calls: 0,
            level_calls: 0,
            geometry_calls: 0,
            shadow_calls: 0,
            visibility_calls: 0,
            close_calls: 0,
            refuse_creation: false,
            refuse_leveling: false,
        }
    }

    /// The total of all counted calls, saturating at the counter limit.
    pub fn total_calls(&self) -> (t: u64)
        ensures
            t == sat_add(
                sat_add(
                    sat_add(
                        sat_add(
                            sat_add(self.create_calls as int, self.level_calls as int),
                            self.geometry_calls as int,
                        ),
                        self.shadow_calls as int,
                    ),
                    self.visibility_calls as int,
                ),
                self.close_calls as int,
            ),
    {
        let a = saturating_add(self.create_calls, self.level_calls);
        let b = saturating_add(a, self.geometry_calls);
        let c = saturating_add(b, self.shadow_calls);
        let d = saturating_add(c, self.visibility_calls);
        saturating_add(d, self.close_calls)
    }
}

/// Two counters added, capped at the counter limit.
pub open spec fn sat_add(a: int, b: int) -> int {
    if a + b <= u64::MAX {
        a + b
    } else {
        u64::MAX as int
    }
}

/// Adds two counters without overflowing.
fn saturating_add(a: u64, b: u64) -> (r: u64)
    ensures
        r == sat_add(a as int, b as int),
{
    if a <= u64::MAX - b {
        a + b
    } else {
        u64::MAX
    }
}

impl PlatformBackend for CountingBackend {
    fn create_window(
        &mut self,
        label: &String,
        url: &String,
        geometry: Geometry,
        shadow: bool,
    ) -> (created: bool)
        ensures
            *final(self) == (CountingBackend {
                create_calls: sat_add(old(self).create_calls as int, 1) as u64,
                ..*old(self)
            }),
            created == !old(self).refuse_creation,
    {
        self.create_calls = saturating_add(self.create_calls, 1);
        !self.refuse_creation
    }

    fn apply_level(&mut self, label: &String, level: LevelState) -> (applied: bool)
        ensures
            *final(self) == (CountingBackend {
                level_calls: sat_add(old(self).level_calls as int, 1) as u64,
                ..*old(self)
            }),
            applied == !old(self).refuse_leveling,
    {
        self.level_calls = saturating_add(self.level_calls, 1);
        !self.refuse_leveling
    }

    fn set_geometry(&mut self, label: &String, geometry: Geometry)
        ensures
            *final(self) == (CountingBackend {
                geometry_calls: sat_add(old(self).geometry_calls as int, 1) as u64,
                ..*old(self)
            }),
    {
        self.geometry_calls = saturating_add(self.geometry_calls, 1);
    }

    fn set_shadow(&mut self, label: &String, enabled: bool)
        ensures
            *final(self) == (CountingBackend {
                shadow_calls: sat_add(old(self).shadow_calls as int, 1) as u64,
                ..*old(self)
            }),
    {
        self.shadow_calls = saturating_add(self.shadow_calls, 1);
    }

    fn set_visibility(&mut self, label: &String, visible: bool)
        ensures
            *final(self) == (CountingBackend {
                visibility_calls: sat_add(old(self).visibility_calls as int, 1) as u64,
                ..*old(self)
            }),
    {
        self.visibility_calls = saturating_add(self.visibility_calls, 1);
    }

    fn close_window(&mut self, label: &String)
        ensures
            *final(self) == (CountingBackend {
                close_calls: sat_add(old(self).close_calls as int, 1) as u64,
                ..*old(self)
            }),
    {
        self.close_calls = saturating_add(self.close_calls, 1);
    }
}

} // verus!
