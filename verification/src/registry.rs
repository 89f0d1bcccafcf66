use vstd::prelude::*;
use crate::backend::PlatformBackend;
use crate::errors::SurfaceError;
use crate::geometry::Geometry;
use crate::surface::{LevelState, Surface, SurfaceModel, SurfaceRole};
use crate::surface::{default_level, role_level};

verus! {

/// The mathematical image of the registry's table.
pub open spec fn models(t: Seq<Surface>) -> Seq<SurfaceModel> {
    t.map_values(|s: Surface| s@)
}

/// Whether some surface in the table carries label `l`.
pub open spec fn has_label(t: Seq<SurfaceModel>, l: Seq<char>) -> bool {
    exists|i: int| 0 <= i < t.len() && t[i].label == l
}

/// The monitor index a wallpaper surface backs.
pub open spec fn wp_index(m: SurfaceModel) -> int {
    m.role->0 as int
}

/// Whether some wallpaper surface in the table backs monitor `i`.
pub open spec fn has_wallpaper(t: Seq<SurfaceModel>, i: int) -> bool {
    exists|k: int| 0 <= k < t.len() && t[k].role is Wallpaper && wp_index(t[k]) == i
}

/// Whether any wallpaper surface exists at all.
pub open spec fn any_wallpaper(t: Seq<SurfaceModel>) -> bool {
    exists|k: int| 0 <= k < t.len() && t[k].role is Wallpaper
}

/// Well-formedness of the table: labels are unique — the label is the
/// primary key, and nothing else is demanded of the table. In particular
/// several wallpaper surfaces may name the same monitor; a
/// resynchronization treats them all alike.
pub open spec fn wf(t: Seq<SurfaceModel>) -> bool {
    forall|i: int, j: int|
        0 <= i < j < t.len() ==> (#[trigger] t[i]).label != (#[trigger] t[j]).label
}

/// The model of a surface created afresh for `role`: placed at the role's
/// level and visible, like every freshly created surface.
pub open spec fn created_model(label: Seq<char>, role: SurfaceRole, geometry: Geometry) -> SurfaceModel {
    SurfaceModel {
        label,
        role,
        geometry,
        level: role_level(role),
        visible: true,
    }
}

/// The same surface moved to `geometry`.
pub open spec fn with_geometry(m: SurfaceModel, geometry: Geometry) -> SurfaceModel {
    SurfaceModel { geometry, ..m }
}

/// The same surface at level `level`.
pub open spec fn with_level(m: SurfaceModel, level: LevelState) -> SurfaceModel {
    SurfaceModel { level, ..m }
}

/// The same surface shown or hidden.
pub open spec fn with_visible(m: SurfaceModel, visible: bool) -> SurfaceModel {
    SurfaceModel { visible, ..m }
}

/// The in-memory table of active surfaces, keyed by label, driving the
/// platform backend `L` for all native window work.
pub struct SurfaceRegistry<L> {
    pub surfaces: Vec<Surface>,
    pub backend: L,
}

impl<L: PlatformBackend> View for SurfaceRegistry<L> {
    type V = Seq<SurfaceModel>;

    open spec fn view(&self) -> Seq<SurfaceModel> {
        models(self.surfaces@)
    }
}

impl<L: PlatformBackend> SurfaceRegistry<L> {
    /// An empty registry over the given backend.
    pub fn new(backend: L) -> (r: SurfaceRegistry<L>)
        ensures
            r@ =~= Seq::<SurfaceModel>::empty(),
            wf(r@),
    {
        SurfaceRegistry { surfaces: Vec::new(), backend }
    }

    /// How many surfaces are active.
    pub fn surface_count(&self) -> (n: usize)
        ensures
            n == self@.len(),
    {
        self.surfaces.len()
    }

    /// Whether any wallpaper surface exists: the guard the topology
    /// watcher consults before forcing a resynchronization.
    pub fn has_any_wallpaper(&self) -> (r: bool)
        ensures
            r == any_wallpaper(self@),
    {
        let mut k: usize = 0;
        while k < self.surfaces.len()
            invariant
                0 <= k <= self@.len(),
                forall|j: int| 0 <= j < k ==> !((#[trigger] self@[j]).role is Wallpaper),
            decreases self@.len() - k,
        {
            match self.surfaces[k].role {
                SurfaceRole::Wallpaper(_) => {
                    assert(self@[k as int].role is Wallpaper);
                    return true;
                },
                _ => {},
            }
            k = k + 1;
        }
        false
    }

    /// The position of the surface carrying `label`, if any.
    pub(crate) fn find_by_label(&self, label: &String) -> (r: Option<usize>)
        ensures
            match r {
                Option::Some(k) => 0 <= k < self@.len() && self@[k as int].label == label@,
                Option::None => !has_label(self@, label@),
            },
    {
        let mut k: usize = 0;
        while k < self.surfaces.len()
            invariant
                0 <= k <= self@.len(),
                forall|j: int| 0 <= j < k ==> (#[trigger] self@[j]).label != label@,
            decreases self@.len() - k,
        {
            if self.surfaces[k].label == *label {
                return Option::Some(k);
            }
            k = k + 1;
        }
        Option::None
    }

    /// Creates a surface: a no-op success if `label` is already taken;
    /// otherwise the native window is built, shown, and placed at the
    /// role's level. `WindowCreationError` reports a window the operating
    /// system would not build, in which case nothing is recorded. If only
    /// the leveling fails, the window is kept at the weak always-on-bottom
    /// placement and `LevelingError` is surfaced, so the caller may retry
    /// the leveling.
    pub fn create_surface(
        &mut self,
        label: &String,
        role: SurfaceRole,
        url: &String,
        geometry: Geometry,
        shadow: bool,
    ) -> (r: Result<(), SurfaceError>)
        requires
            wf(old(self)@),
        ensures
            wf(final(self)@),
            has_label(old(self)@, label@) ==> r is Ok && final(self)@ == old(self)@
                && final(self).backend == old(self).backend,
            !has_label(old(self)@, label@) ==> match r {
                Result::Ok(u) => final(self)@ == old(self)@.push(
                    created_model(label@, role, geometry),
                ),
                Result::Err(e) => (e == SurfaceError::LevelingError && final(self)@ == old(
                    self,
                )@.push(
                    with_level(created_model(label@, role, geometry), LevelState::AlwaysOnBottom),
                )) || (e == SurfaceError::WindowCreationError && final(self)@ == old(self)@),
            },
            r is Ok || r == Result::<(), SurfaceError>::Err(SurfaceError::LevelingError) || r
                == Result::<(), SurfaceError>::Err(SurfaceError::WindowCreationError),
    {
        match self.find_by_label(label) {
            Option::Some(_) => {
                return Result::Ok(());
            },
            Option::None => {},
        }
        let created = self.backend.create_window(label, url, geometry, shadow);
        if !created {
            return Result::Err(SurfaceError::WindowCreationError);
        }
        let target = default_level(role);
        let leveled = self.backend.apply_level(label, target);
        let level = if leveled {
            target
        } else {
            LevelState::AlwaysOnBottom
        };
        let ghost t0 = self@;
        let ghost m = SurfaceModel { label: label@, role, geometry, level, visible: true };
        let s = Surface { label: label.clone(), role, geometry, level, visible: true };
        proof {
            assert(s@ == m);
            lemma_wf_push(t0, m);
        }
        self.surfaces.push(s);
        proof {
            assert(self@ =~= t0.push(m));
        }
        if leveled {
            Result::Ok(())
        } else {
            Result::Err(SurfaceError::LevelingError)
        }
    }

    /// Updates a surface's geometry; no level change. Reports `NotFound`
    /// when no surface carries `label`.
    pub fn reposition_surface(&mut self, label: &String, geometry: Geometry) -> (r: Result<
        (),
        SurfaceError,
    >)
        requires
            wf(old(self)@),
        ensures
            wf(final(self)@),
            !has_label(old(self)@, label@) ==> r == Result::<(), SurfaceError>::Err(
                SurfaceError::NotFound,
            ) && final(self)@ == old(self)@,
            has_label(old(self)@, label@) ==> r is Ok && (exists|k: int|
                0 <= k < old(self)@.len() && old(self)@[k].label == label@ && final(self)@ == old(
                    self,
                )@.update(k, with_geometry(old(self)@[k], geometry))),
    {
        match self.find_by_label(label) {
            Option::None => Result::Err(SurfaceError::NotFound),
            Option::Some(k) => {
                self.backend.set_geometry(label, geometry);
                let ghost t0 = self@;
                self.replace_at(k, geometry, self.surfaces[k].level, self.surfaces[k].visible);
                proof {
                    assert(t0[k as int].level == with_geometry(t0[k as int], geometry).level);
                    assert(self@ =~= t0.update(k as int, with_geometry(t0[k as int], geometry)));
                    lemma_wf_same_keys(t0, self@);
                }
                Result::Ok(())
            },
        }
    }

    /// Re-applies a compositor level for an existing surface. Reports
    /// `NotFound` for an unknown label and `LevelingError` when the
    /// backend cannot place the window, in which case the recorded level
    /// keeps its last applied value. `WindowCreationError` is never
    /// reached from this path.
    pub fn set_surface_level(&mut self, label: &String, level: LevelState) -> (r: Result<
        (),
        SurfaceError,
    >)
        requires
            wf(old(self)@),
        ensures
            wf(final(self)@),
            !has_label(old(self)@, label@) ==> r == Result::<(), SurfaceError>::Err(
                SurfaceError::NotFound,
            ) && final(self)@ == old(self)@,
            has_label(old(self)@, label@) ==> (match r {
                Result::Ok(u) => exists|k: int|
                    0 <= k < old(self)@.len() && old(self)@[k].label == label@ && final(self)@
                        == old(self)@.update(k, with_level(old(self)@[k], level)),
                Result::Err(e) => e == SurfaceError::LevelingError && final(self)@ == old(self)@,
            }),
            r is Ok || r == Result::<(), SurfaceError>::Err(SurfaceError::NotFound) || r
                == Result::<(), SurfaceError>::Err(SurfaceError::LevelingError),
    {
        match self.find_by_label(label) {
            Option::None => Result::Err(SurfaceError::NotFound),
            Option::Some(k) => {
                let leveled = self.backend.apply_level(label, level);
                if leveled {
                    let ghost t0 = self@;
                    self.replace_at(k, self.surfaces[k].geometry, level, self.surfaces[k].visible);
                    proof {
                        assert(t0[k as int].geometry == with_level(t0[k as int], level).geometry);
                        assert(self@ =~= t0.update(k as int, with_level(t0[k as int], level)));
                        lemma_wf_same_keys(t0, self@);
                    }
                    Result::Ok(())
                } else {
                    Result::Err(SurfaceError::LevelingError)
                }
            },
        }
    }

    /// Toggles a surface's shadow. Cosmetic: the table records nothing of
    /// it. Reports `NotFound` for an unknown label.
    pub fn set_surface_shadow(&mut self, label: &String, enabled: bool) -> (r: Result<
        (),
        SurfaceError,
    >)
        requires
            wf(old(self)@),
        ensures
            wf(final(self)@),
            final(self)@ == old(self)@,
            !has_label(old(self)@, label@) ==> r == Result::<(), SurfaceError>::Err(
                SurfaceError::NotFound,
            ),
            has_label(old(self)@, label@) ==> r is Ok,
    {
        match self.find_by_label(label) {
            Option::None => Result::Err(SurfaceError::NotFound),
            Option::Some(_) => {
                self.backend.set_shadow(label, enabled);
                Result::Ok(())
            },
        }
    }

    /// Shows or hides an existing surface. Reports `NotFound` for an
    /// unknown label.
    pub fn set_surface_visible(&mut self, label: &String, visible: bool) -> (r: Result<
        (),
        SurfaceError,
    >)
        requires
            wf(old(self)@),
        ensures
            wf(final(self)@),
            !has_label(old(self)@, label@) ==> r == Result::<(), SurfaceError>::Err(
                SurfaceError::NotFound,
            ) && final(self)@ == old(self)@,
            has_label(old(self)@, label@) ==> r is Ok && (exists|k: int|
                0 <= k < old(self)@.len() && old(self)@[k].label == label@ && final(self)@ == old(
                    self,
                )@.update(k, with_visible(old(self)@[k], visible))),
    {
        match self.find_by_label(label) {
            Option::None => Result::Err(SurfaceError::NotFound),
            Option::Some(k) => {
                self.backend.set_visibility(label, visible);
                let ghost t0 = self@;
                self.replace_at(k, self.surfaces[k].geometry, self.surfaces[k].level, visible);
                proof {
                    assert(t0[k as int].geometry == with_visible(t0[k as int], visible).geometry);
                    assert(self@ =~= t0.update(k as int, with_visible(t0[k as int], visible)));
                    lemma_wf_same_keys(t0, self@);
                }
                Result::Ok(())
            },
        }
    }

    /// Destroys the surface carrying `label`: closes its window and drops
    /// the entry. Idempotent — destroying an absent label is success, and
    /// afterwards the label is certainly absent.
    pub fn destroy_surface(&mut self, label: &String) -> (r: Result<(), SurfaceError>)
        requires
            wf(old(self)@),
        ensures
            wf(final(self)@),
            r is Ok,
            !has_label(old(self)@, label@) ==> final(self)@ == old(self)@,
            has_label(old(self)@, label@) ==> exists|k: int|
                0 <= k < old(self)@.len() && old(self)@[k].label == label@ && final(self)@ == old(
                    self,
                )@.remove(k),
            !has_label(final(self)@, label@),
    {
        match self.find_by_label(label) {
            Option::None => Result::Ok(()),
            Option::Some(k) => {
                self.backend.close_window(label);
                let ghost t0 = self@;
                self.surfaces.remove(k);
                proof {
                    assert(self@ =~= t0.remove(k as int));
                    lemma_wf_remove(t0, k as int);
                    lemma_removed_label_absent(t0, k as int, label@);
                }
                Result::Ok(())
            },
        }
    }

    /// Replaces the geometry, level and visibility of the surface at
    /// position `k`, keeping its label and role.
    pub(crate) fn replace_at(&mut self, k: usize, geometry: Geometry, level: LevelState, visible: bool)
        requires
            0 <= k < old(self)@.len(),
        ensures
            final(self)@.len() == old(self)@.len(),
            final(self)@[k as int] == (SurfaceModel {
                geometry,
                level,
                visible,
                ..old(self)@[k as int]
            }),
            forall|j: int|
                0 <= j < old(self)@.len() && j != k ==> final(self)@[j] == old(self)@[j],
    {
        let lab = self.surfaces[k].label.clone();
        let role = self.surfaces[k].role;
        self.surfaces.set(k, Surface { label: lab, role, geometry, level, visible });
    }

    /// The geometry of the surface carrying `label`, for inspection.
    pub fn geometry_of(&self, label: &String) -> (r: Option<Geometry>)
        ensures
            match r {
                Option::Some(g) => exists|k: int|
                    0 <= k < self@.len() && self@[k].label == label@ && self@[k].geometry == g,
                Option::None => !has_label(self@, label@),
            },
    {
        match self.find_by_label(label) {
            Option::Some(k) => Option::Some(self.surfaces[k].geometry),
            Option::None => Option::None,
        }
    }

    /// The level last applied to the surface carrying `label`.
    pub fn level_of(&self, label: &String) -> (r: Option<LevelState>)
        ensures
            match r {
                Option::Some(l) => exists|k: int|
                    0 <= k < self@.len() && self@[k].label == label@ && self@[k].level == l,
                Option::None => !has_label(self@, label@),
            },
    {
        match self.find_by_label(label) {
            Option::Some(k) => Option::Some(self.surfaces[k].level),
            Option::None => Option::None,
        }
    }

    /// The surface carrying `label`, for inspection.
    pub fn lookup(&self, label: &String) -> (r: Option<&Surface>)
        ensures
            match r {
                Option::Some(s) => has_label(self@, label@) && exists|k: int|
                    0 <= k < self@.len() && self@[k] == s@ && s@.label == label@,
                Option::None => !has_label(self@, label@),
            },
    {
        match self.find_by_label(label) {
            Option::Some(k) => {
                let s = &self.surfaces[k];
                proof {
                    assert(self@[k as int] == s@);
                }
                Option::Some(s)
            },
            Option::None => Option::None,
        }
    }
}

/// A well-formed table stays well-formed under appending a surface whose
/// label is fresh.
pub proof fn lemma_wf_push(t: Seq<SurfaceModel>, m: SurfaceModel)
    requires
        wf(t),
        !has_label(t, m.label),
    ensures
        wf(t.push(m)),
{
    let t1 = t.push(m);
    assert forall|i: int, j: int| 0 <= i < j < t1.len() implies (#[trigger] t1[i]).label != (
    #[trigger] t1[j]).label by {
        if j == t.len() {
            assert(t1[i] == t[i]);
            if t[i].label == m.label {
                assert(has_label(t, m.label));
            }
        } else {
            assert(t1[i] == t[i] && t1[j] == t[j]);
        }
    }
}

/// A well-formed table stays well-formed under removing one surface.
pub proof fn lemma_wf_remove(t: Seq<SurfaceModel>, k: int)
    requires
        wf(t),
        0 <= k < t.len(),
    ensures
        wf(t.remove(k)),
{
    let t1 = t.remove(k);
    assert forall|i: int| 0 <= i < t1.len() implies t1[i] == t[if i < k {
        i
    } else {
        i + 1
    }] by {
        t.remove_ensures(k);
    }
}

/// Removing the surface at `k` removes the only carrier of its label: the
/// label is absent afterwards, so any following operation addressed to it
/// reports `NotFound`.
pub proof fn lemma_removed_label_absent(t: Seq<SurfaceModel>, k: int, l: Seq<char>)
    requires
        wf(t),
        0 <= k < t.len(),
        t[k].label == l,
    ensures
        !has_label(t.remove(k), l),
{
    let t1 = t.remove(k);
    assert forall|i: int| 0 <= i < t1.len() implies (#[trigger] t1[i]).label != l by {
        t.remove_ensures(k);
        if i < k {
            assert(t1[i] == t[i]);
        } else {
            assert(t1[i] == t[i + 1]);
        }
    }
}

/// A table whose surfaces keep their labels position by position stays
/// well-formed.
pub proof fn lemma_wf_same_keys(t1: Seq<SurfaceModel>, t2: Seq<SurfaceModel>)
    requires
        wf(t1),
        t2.len() == t1.len(),
        forall|i: int| 0 <= i < t1.len() ==> (#[trigger] t2[i]).label == t1[i].label,
    ensures
        wf(t2),
{
}

/// Creating a surface is idempotent: once a surface carrying `label`
/// stands in the table — however its leveling went — any further create
/// request for that label finds the label taken, and so returns success
/// without a side effect and without a native call.
pub proof fn lemma_create_idempotent(t: Seq<SurfaceModel>, m: SurfaceModel, label: Seq<char>)
    requires
        m.label == label,
    ensures
        has_label(t.push(m), label),
{
    assert(t.push(m)[t.len() as int].label == label);
}

} // verus!
