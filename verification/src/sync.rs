use vstd::prelude::*;
use crate::backend::PlatformBackend;
use crate::errors::SurfaceError;
use crate::geometry::Geometry;
use crate::labels::{wallpaper_label, wallpaper_label_spec};
use crate::registry::{
    has_label, has_wallpaper, lemma_wf_push, lemma_wf_same_keys, models, wf, with_geometry,
    wp_index, SurfaceRegistry,
};
use crate::surface::{LevelState, Surface, SurfaceModel, SurfaceRole};

verus! {

/// One monitor a resynchronization could not serve, and why.
#[derive(Clone, Copy, Debug, PartialEq, Eq, Structural)]
pub struct SyncFailure {
    pub monitor: usize,
    pub error: SurfaceError,
}

/// Whether the table agrees with the monitor snapshot: every wallpaper
/// surface backs a monitor the snapshot holds, at that monitor's geometry,
/// and every monitor of the snapshot has its wallpaper surface.
pub open spec fn synced(t: Seq<SurfaceModel>, snap: Seq<Geometry>) -> bool {
    &&& forall|k: int|
        0 <= k < t.len() && (#[trigger] t[k]).role is Wallpaper ==> 0 <= wp_index(t[k])
            < snap.len() && t[k].geometry == snap[wp_index(t[k])]
    &&& forall|i: int| 0 <= i < snap.len() ==> has_wallpaper(t, i)
}

/// Whether a surface survives a resynchronization against `n` monitors:
/// everything but a wallpaper surface whose monitor is gone.
pub open spec fn keep(m: SurfaceModel, n: int) -> bool {
    !(m.role is Wallpaper && wp_index(m) >= n)
}

/// The shape of a wallpaper surface a resynchronization creates for
/// monitor `i`: the standard label, the monitor's geometry, visible, at
/// desktop depth or — when the strong attachment failed — at the weak
/// fallback.
pub open spec fn created_wallpaper(m: SurfaceModel, i: int, snap: Seq<Geometry>) -> bool {
    &&& m.label == wallpaper_label_spec(i as nat)
    &&& m.role == SurfaceRole::Wallpaper(i as usize)
    &&& m.geometry == snap[i]
    &&& m.visible
    &&& (m.level == LevelState::DesktopBackground || m.level == LevelState::AlwaysOnBottom)
}

/// Where a surviving surface stands after a resynchronization: a wallpaper
/// surface is moved to its monitor's geometry, everything else is left
/// alone.
pub open spec fn repositioned(m: SurfaceModel, snap: Seq<Geometry>) -> SurfaceModel {
    if m.role is Wallpaper && 0 <= wp_index(m) < snap.len() {
        with_geometry(m, snap[wp_index(m)])
    } else {
        m
    }
}

/// Whether a surface appended by a resynchronization is in order: a fresh
/// wallpaper surface for a monitor of the snapshot that had none.
pub open spec fn appended_ok(m: SurfaceModel, t0: Seq<SurfaceModel>, snap: Seq<Geometry>) -> bool {
    &&& m.role is Wallpaper
    &&& 0 <= wp_index(m) < snap.len()
    &&& !has_wallpaper(t0, wp_index(m))
    &&& created_wallpaper(m, wp_index(m), snap)
}

/// Whether `m` stands somewhere in the table.
pub open spec fn in_table(t: Seq<SurfaceModel>, m: SurfaceModel) -> bool {
    exists|k: int| 0 <= k < t.len() && t[k] == m
}

/// Whether the failure list records monitor `i`.
pub open spec fn has_failure(fs: Seq<SyncFailure>, i: int) -> bool {
    exists|q: int| 0 <= q < fs.len() && fs[q].monitor as int == i
}

/// Whether one recorded failure is truthful against the tables before and
/// after: it names a monitor of the snapshot that had no wallpaper
/// surface; after a creation failure it still has none, after a mere
/// leveling failure the surface exists all the same.
pub open spec fn failure_sound(
    f: SyncFailure,
    t0: Seq<SurfaceModel>,
    t1: Seq<SurfaceModel>,
    n: int,
) -> bool {
    &&& (f.monitor as int) < n
    &&& !has_wallpaper(t0, f.monitor as int)
    &&& (f.error == SurfaceError::WindowCreationError && !has_wallpaper(t1, f.monitor as int)) || (
    f.error == SurfaceError::LevelingError && has_wallpaper(t1, f.monitor as int))
}

/// How the table after a resynchronization relates to the table before:
/// wallpaper surfaces of present monitors survive, moved to their
/// monitor's geometry; everything that is not a wallpaper survives
/// untouched, and nothing else joins it; every wallpaper of the new table
/// backs a present monitor at that monitor's geometry, and is either a
/// survivor or a fresh surface for a monitor that had none; no monitor
/// loses its wallpaper.
#[verifier::opaque]
pub open spec fn sync_table_post(
    t0: Seq<SurfaceModel>,
    t1: Seq<SurfaceModel>,
    snap: Seq<Geometry>,
) -> bool {
    &&& forall|k: int|
        0 <= k < t0.len() && (#[trigger] t0[k]).role is Wallpaper && wp_index(t0[k]) < snap.len()
            ==> exists|k2: int|
            0 <= k2 < t1.len() && t1[k2] == with_geometry(t0[k], snap[wp_index(t0[k])])
    &&& forall|k: int|
        0 <= k < t0.len() && !((#[trigger] t0[k]).role is Wallpaper) ==> exists|k2: int|
            0 <= k2 < t1.len() && t1[k2] == t0[k]
    &&& forall|k2: int|
        0 <= k2 < t1.len() && !((#[trigger] t1[k2]).role is Wallpaper) ==> exists|k: int|
            0 <= k < t0.len() && t0[k] == t1[k2]
    &&& forall|k2: int|
        0 <= k2 < t1.len() && (#[trigger] t1[k2]).role is Wallpaper ==> 0 <= wp_index(t1[k2])
            < snap.len() && t1[k2].geometry == snap[wp_index(t1[k2])]
    &&& forall|k2: int|
        0 <= k2 < t1.len() && (#[trigger] t1[k2]).role is Wallpaper ==> (exists|k: int|
            0 <= k < t0.len() && t0[k].role == t1[k2].role && t1[k2] == with_geometry(
                t0[k],
                snap[wp_index(t1[k2])],
            )) || (!has_wallpaper(t0, wp_index(t1[k2])) && created_wallpaper(
            t1[k2],
            wp_index(t1[k2]),
            snap,
        ))
    &&& forall|i: int| 0 <= i < snap.len() && has_wallpaper(t0, i) ==> has_wallpaper(t1, i)
}

/// Tables whose surfaces carry the same roles position by position hold
/// wallpapers for the same monitors.
proof fn lemma_same_roles_same_wallpapers(a: Seq<SurfaceModel>, b: Seq<SurfaceModel>)
    requires
        a.len() == b.len(),
        forall|k: int| 0 <= k < a.len() ==> (#[trigger] b[k]).role == a[k].role,
    ensures
        forall|i: int| #[trigger] has_wallpaper(b, i) == has_wallpaper(a, i),
{
    assert forall|i: int| #[trigger] has_wallpaper(b, i) == has_wallpaper(a, i) by {
        if has_wallpaper(a, i) {
            let k = choose|k: int|
                0 <= k < a.len() && a[k].role is Wallpaper && wp_index(a[k]) == i;
            assert(b[k].role == a[k].role);
            assert(has_wallpaper(b, i));
        }
        if has_wallpaper(b, i) {
            let k = choose|k: int|
                0 <= k < b.len() && b[k].role is Wallpaper && wp_index(b[k]) == i;
            assert(a[k].role == b[k].role);
            assert(has_wallpaper(a, i));
        }
    }
}

/// Appending one failure record adds exactly its monitor.
proof fn lemma_failures_push(fs: Seq<SyncFailure>, f: SyncFailure)
    ensures
        forall|i: int| #[trigger]
            has_failure(fs.push(f), i) == (has_failure(fs, i) || f.monitor as int == i),
{
    assert forall|i: int| #[trigger]
        has_failure(fs.push(f), i) == (has_failure(fs, i) || f.monitor as int == i) by {
        if has_failure(fs, i) {
            let q = choose|q: int| 0 <= q < fs.len() && fs[q].monitor as int == i;
            assert(fs.push(f)[q].monitor as int == i);
        }
        if f.monitor as int == i {
            assert(fs.push(f)[fs.len() as int].monitor as int == i);
        }
        if has_failure(fs.push(f), i) {
            let q = choose|q: int| 0 <= q < fs.push(f).len() && fs.push(f)[q].monitor as int == i;
            if q < fs.len() {
                assert(fs[q].monitor as int == i);
            }
        }
    }
}

/// Appending one surface adds exactly its monitor, if it is a wallpaper.
proof fn lemma_wallpapers_push(t: Seq<SurfaceModel>, m: SurfaceModel)
    ensures
        forall|i: int| #[trigger]
            has_wallpaper(t.push(m), i) == (has_wallpaper(t, i) || (m.role is Wallpaper
                && wp_index(m) == i)),
{
    assert forall|i: int| #[trigger]
        has_wallpaper(t.push(m), i) == (has_wallpaper(t, i) || (m.role is Wallpaper && wp_index(m)
            == i)) by {
        if has_wallpaper(t, i) {
            let k = choose|k: int|
                0 <= k < t.len() && t[k].role is Wallpaper && wp_index(t[k]) == i;
            assert(t.push(m)[k] == t[k]);
            assert(has_wallpaper(t.push(m), i));
        }
        if m.role is Wallpaper && wp_index(m) == i {
            assert(t.push(m)[t.len() as int] == m);
            assert(has_wallpaper(t.push(m), i));
        }
        if has_wallpaper(t.push(m), i) {
            let k = choose|k: int|
                0 <= k < t.push(m).len() && t.push(m)[k].role is Wallpaper && wp_index(
                    t.push(m)[k],
                ) == i;
            if k < t.len() {
                assert(t.push(m)[k] == t[k]);
                assert(has_wallpaper(t, i));
            } else {
                assert(t.push(m)[k] == m);
            }
        }
    }
}

impl<L: PlatformBackend> SurfaceRegistry<L> {
    /// Closes and drops every wallpaper surface whose monitor index falls
    /// outside the first `n` monitors; everything else is untouched.
    #[verifier::loop_isolation(false)]
    #[verifier::rlimit(60)]
    pub(crate) fn prune_stale_wallpapers(&mut self, n: usize)
        requires
            wf(old(self)@),
        ensures
            wf(final(self)@),
            forall|k: int|
                0 <= k < final(self)@.len() ==> keep(#[trigger] final(self)@[k], n as int),
            forall|k: int|
                0 <= k < final(self)@.len() ==> #[trigger] in_table(old(self)@, final(self)@[k]),
            forall|k0: int|
                0 <= k0 < old(self)@.len() && keep(old(self)@[k0], n as int)
                    ==> #[trigger] in_table(final(self)@, old(self)@[k0]),
            (forall|k0: int| 0 <= k0 < old(self)@.len() ==> keep(#[trigger] old(self)@[k0], n as int))
                ==> final(self)@ == old(self)@ && final(self).backend == old(self).backend,
    {
        let ghost t0 = self@;
        let ghost b0 = self.backend;
        let mut kept: Vec<Surface> = Vec::new();
        let mut p: usize = 0;
        while p < self.surfaces.len()
            invariant
                0 <= p <= t0.len(),
                self@ == t0,
                models(kept@).len() <= p,
                wf(models(kept@)),
                forall|j: int|
                    0 <= j < models(kept@).len() ==> keep(#[trigger] models(kept@)[j], n as int),
                forall|j: int|
                    0 <= j < models(kept@).len() ==> exists|j0: int|
                        0 <= j0 < p && t0[j0] == #[trigger] models(kept@)[j],
                forall|j0: int|
                    0 <= j0 < p && keep(#[trigger] t0[j0], n as int) ==> exists|j: int|
                        0 <= j < models(kept@).len() && models(kept@)[j] == t0[j0],
                (forall|j0: int| 0 <= j0 < t0.len() ==> keep(#[trigger] t0[j0], n as int))
                    ==> models(kept@) == t0.subrange(0, p as int) && self.backend == b0,
            decreases t0.len() - p,
        {
            let ghost km = models(kept@);
            let stale = match self.surfaces[p].role {
                SurfaceRole::Wallpaper(m) => m >= n,
                _ => false,
            };
            if stale {
                proof {
                    assert(!keep(t0[p as int], n as int));
                    if forall|j0: int| 0 <= j0 < t0.len() ==> keep(#[trigger] t0[j0], n as int) {
                        assert(keep(t0[p as int], n as int));
                        assert(false);
                    }
                }
                let lab = self.surfaces[p].label.clone();
                self.backend.close_window(&lab);
            } else {
                let s = &self.surfaces[p];
                let copy = Surface {
                    label: s.label.clone(),
                    role: s.role,
                    geometry: s.geometry,
                    level: s.level,
                    visible: s.visible,
                };
                proof {
                    assert(copy@ == t0[p as int]);
                    assert forall|j: int| 0 <= j < km.len() implies (#[trigger] km[j]).label
                        != copy@.label by {
                        let j0 = choose|j0: int| 0 <= j0 < p && t0[j0] == km[j];
                        assert(t0[j0].label != t0[p as int].label);
                    }
                    assert(!has_label(km, copy@.label));
                    lemma_wf_push(km, copy@);
                }
                kept.push(copy);
                proof {
                    assert(models(kept@) =~= km.push(t0[p as int]));
                    assert forall|j0: int|
                        0 <= j0 < p + 1 && keep(#[trigger] t0[j0], n as int) implies exists|j: int|
                        0 <= j < models(kept@).len() && models(kept@)[j] == t0[j0] by {
                        if j0 < p {
                            let j = choose|j: int| 0 <= j < km.len() && km[j] == t0[j0];
                            assert(models(kept@)[j] == t0[j0]);
                        } else {
                            assert(models(kept@)[km.len() as int] == t0[p as int]);
                        }
                    }
                    if forall|j0: int| 0 <= j0 < t0.len() ==> keep(#[trigger] t0[j0], n as int) {
                        assert(models(kept@) =~= t0.subrange(0, p + 1));
                    }
                }
            }
            p = p + 1;
        }
        self.surfaces = kept;
        proof {
            assert(models(kept@) == self@);
            if forall|j0: int| 0 <= j0 < t0.len() ==> keep(#[trigger] t0[j0], n as int) {
                assert(t0.subrange(0, t0.len() as int) =~= t0);
            }
            assert forall|k: int| 0 <= k < self@.len() implies #[trigger] in_table(
                t0,
                self@[k],
            ) by {
                let j0 = choose|j0: int| 0 <= j0 < t0.len() && t0[j0] == self@[k];
                assert(0 <= j0 < t0.len() && t0[j0] == self@[k]);
            }
            assert forall|k0: int|
                0 <= k0 < t0.len() && keep(t0[k0], n as int) implies #[trigger] in_table(
                self@,
                t0[k0],
            ) by {
                let j = choose|j: int| 0 <= j < models(kept@).len() && models(kept@)[j] == t0[k0];
                assert(0 <= j < self@.len() && self@[j] == t0[k0]);
            }
        }
    }

    /// Walks the snapshot and, for each monitor, moves every wallpaper
    /// surface backing it to the monitor's geometry — touching none that
    /// already matches — or creates the missing surface, collecting a
    /// failure for every monitor that could not be served.
    #[verifier::loop_isolation(false)]
    #[verifier::rlimit(100)]
    #[verifier::spinoff_prover]
    pub(crate) fn ensure_monitor_surfaces(
        &mut self,
        snapshot: &Vec<Geometry>,
        url: &String,
    ) -> (failures: Vec<SyncFailure>)
        requires
            wf(old(self)@),
            forall|k: int|
                0 <= k < old(self)@.len() ==> keep(
                    #[trigger] old(self)@[k],
                    snapshot@.len() as int,
                ),
        ensures
            wf(final(self)@),
            final(self)@.len() >= old(self)@.len(),
            forall|k: int|
                0 <= k < old(self)@.len() ==> final(self)@[k] == repositioned(
                    #[trigger] old(self)@[k],
                    snapshot@,
                ),
            forall|k: int|
                old(self)@.len() <= k < final(self)@.len() ==> appended_ok(
                    #[trigger] final(self)@[k],
                    old(self)@,
                    snapshot@,
                ),
            forall|i: int|
                0 <= i < snapshot@.len() && !has_wallpaper(old(self)@, i) ==> has_wallpaper(
                    final(self)@,
                    i,
                ) || has_failure(failures@, i),
            forall|q: int|
                0 <= q < failures@.len() ==> failure_sound(
                    #[trigger] failures@[q],
                    old(self)@,
                    final(self)@,
                    snapshot@.len() as int,
                ),
            synced(old(self)@, snapshot@) ==> final(self)@ == old(self)@ && failures@.len() == 0
                && final(self).backend == old(self).backend,
    {
        let ghost tm = self@;
        let ghost b0 = self.backend;
        let ghost snap = snapshot@;
        let n = snapshot.len();
        let mut failures: Vec<SyncFailure> = Vec::new();
        let mut i: usize = 0;
        while i < n
            invariant
                wf(self@),
                0 <= i <= n,
                self@.len() >= tm.len(),
                forall|k: int|
                    0 <= k < tm.len() ==> #[trigger] self@[k] == (if tm[k].role is Wallpaper
                        && wp_index(tm[k]) < i {
                        with_geometry(tm[k], snap[wp_index(tm[k])])
                    } else {
                        tm[k]
                    }),
                forall|k: int|
                    tm.len() <= k < self@.len() ==> appended_ok(#[trigger] self@[k], tm, snap)
                        && wp_index(self@[k]) < i,
                forall|j: int|
                    0 <= j < i && !has_wallpaper(tm, j) ==> has_wallpaper(self@, j) || has_failure(
                        failures@,
                        j,
                    ),
                forall|q: int|
                    0 <= q < failures@.len() ==> failure_sound(
                        #[trigger] failures@[q],
                        tm,
                        self@,
                        n as int,
                    ) && failures@[q].monitor < i,
                synced(tm, snap) ==> self@ == tm && failures@.len() == 0 && self.backend == b0,
            decreases n - i,
        {
            let g = snapshot[i];
            let ghost cur = self@;
            let mut found = false;
            let mut k2: usize = 0;
            while k2 < self.surfaces.len()
                invariant
                    0 <= k2 <= self@.len(),
                    self@.len() == cur.len(),
                    forall|j: int|
                        0 <= j < cur.len() ==> #[trigger] self@[j] == (if cur[j].role is Wallpaper
                            && wp_index(cur[j]) == i as int && j < k2 {
                            with_geometry(cur[j], snap[i as int])
                        } else {
                            cur[j]
                        }),
                    found == (exists|j: int|
                        0 <= j < k2 && (#[trigger] cur[j]).role is Wallpaper && wp_index(cur[j])
                            == i as int),
                    wf(self@),
                    forall|q: int|
                        0 <= q < failures@.len() ==> failure_sound(
                            #[trigger] failures@[q],
                            tm,
                            self@,
                            n as int,
                        ),
                    synced(tm, snap) ==> self@ == cur && self.backend == b0,
                decreases self@.len() - k2,
            {
                let is_target = match self.surfaces[k2].role {
                    SurfaceRole::Wallpaper(m) => m == i,
                    _ => false,
                };
                if is_target {
                    proof {
                        assert(self@[k2 as int] == cur[k2 as int]);
                        assert(cur[k2 as int].role is Wallpaper && wp_index(cur[k2 as int])
                            == i as int);
                    }
                    found = true;
                    if self.surfaces[k2].geometry == g {
                        proof {
                            assert(with_geometry(cur[k2 as int], snap[i as int])
                                == cur[k2 as int]);
                        }
                    } else {
                        proof {
                            if synced(tm, snap) {
                                assert(self@ == cur && cur == tm);
                                assert(tm[k2 as int].geometry == snap[wp_index(tm[k2 as int])]);
                                assert(false);
                            }
                        }
                        let lab = self.surfaces[k2].label.clone();
                        self.backend.set_geometry(&lab, g);
                        let level = self.surfaces[k2].level;
                        let visible = self.surfaces[k2].visible;
                        let ghost before = self@;
                        self.replace_at(k2, g, level, visible);
                        proof {
                            lemma_wf_same_keys(before, self@);
                            lemma_same_roles_same_wallpapers(before, self@);
                            assert(self@[k2 as int] == with_geometry(
                                cur[k2 as int],
                                snap[i as int],
                            ));
                            assert forall|j: int|
                                0 <= j < cur.len() implies #[trigger] self@[j] == (if cur[j].role
                                is Wallpaper && wp_index(cur[j]) == i as int && j < k2 + 1 {
                                with_geometry(cur[j], snap[i as int])
                            } else {
                                cur[j]
                            }) by {
                                if j != k2 {
                                    assert(self@[j] == before[j]);
                                }
                            }
                        }
                    }
                }
                k2 = k2 + 1;
            }
            proof {
                assert forall|j: int|
                    0 <= j < cur.len() implies (#[trigger] self@[j]).role == cur[j].role by {}
                lemma_same_roles_same_wallpapers(cur, self@);
                assert(found == has_wallpaper(cur, i as int)) by {
                    if has_wallpaper(cur, i as int) {
                        let jw = choose|jw: int|
                            0 <= jw < cur.len() && cur[jw].role is Wallpaper && wp_index(cur[jw])
                                == i;
                        assert(0 <= jw < k2 && cur[jw].role is Wallpaper && wp_index(cur[jw])
                            == i as int);
                    }
                }
                assert forall|k: int|
                    0 <= k < tm.len() implies #[trigger] self@[k] == (if tm[k].role is Wallpaper
                        && wp_index(tm[k]) < i + 1 {
                    with_geometry(tm[k], snap[wp_index(tm[k])])
                } else {
                    tm[k]
                }) by {
                    if tm[k].role is Wallpaper && wp_index(tm[k]) < i {
                        assert(cur[k] == with_geometry(tm[k], snap[wp_index(tm[k])]));
                        assert(!(wp_index(cur[k]) == i as int));
                        assert(self@[k] == cur[k]);
                    } else if tm[k].role is Wallpaper && wp_index(tm[k]) == i {
                        assert(cur[k] == tm[k]);
                        assert(self@[k] == with_geometry(tm[k], snap[i as int]));
                    } else {
                        assert(cur[k] == tm[k]);
                        assert(self@[k] == cur[k]);
                    }
                }
                assert forall|k: int|
                    tm.len() <= k < self@.len() implies appended_ok(#[trigger] self@[k], tm, snap)
                        && wp_index(self@[k]) < i + 1 by {
                    assert(cur[k].role is Wallpaper && wp_index(cur[k]) < i);
                    assert(self@[k] == cur[k]);
                }
            }
            if !found {
                let ghost cur = self@;
                proof {
                    assert(!has_wallpaper(cur, i as int));
                    assert(!has_wallpaper(tm, i as int)) by {
                        if has_wallpaper(tm, i as int) {
                            let kw = choose|kw: int|
                                0 <= kw < tm.len() && tm[kw].role is Wallpaper && wp_index(
                                    tm[kw],
                                ) == i;
                            assert(cur[kw].role == tm[kw].role);
                            assert(has_wallpaper(cur, i as int));
                        }
                    }
                    if synced(tm, snap) {
                        assert(has_wallpaper(tm, i as int));
                        assert(false);
                    }
                }
                let lab = wallpaper_label(i);
                match self.find_by_label(&lab) {
                    Option::Some(_) => {
                        proof {
                            lemma_failures_push(
                                failures@,
                                SyncFailure {
                                    monitor: i,
                                    error: SurfaceError::WindowCreationError,
                                },
                            );
                        }
                        failures.push(
                            SyncFailure { monitor: i, error: SurfaceError::WindowCreationError },
                        );
                        proof {
                            assert(failures@.last().monitor == i);
                            assert(has_failure(failures@, i as int));
                            assert(!has_wallpaper(self@, i as int));
                        }
                    },
                    Option::None => {
                        let created = self.backend.create_window(&lab, url, g, false);
                        if !created {
                            proof {
                                lemma_failures_push(
                                    failures@,
                                    SyncFailure {
                                        monitor: i,
                                        error: SurfaceError::WindowCreationError,
                                    },
                                );
                            }
                            failures.push(
                                SyncFailure {
                                    monitor: i,
                                    error: SurfaceError::WindowCreationError,
                                },
                            );
                            proof {
                                assert(failures@.last().monitor == i);
                                assert(has_failure(failures@, i as int));
                                assert(!has_wallpaper(self@, i as int));
                            }
                        } else {
                            let leveled = self.backend.apply_level(
                                &lab,
                                LevelState::DesktopBackground,
                            );
                            let level = if leveled {
                                LevelState::DesktopBackground
                            } else {
                                LevelState::AlwaysOnBottom
                            };
                            let s = Surface {
                                label: lab,
                                role: SurfaceRole::Wallpaper(i),
                                geometry: g,
                                level,
                                visible: true,
                            };
                            proof {
                                lemma_wf_push(cur, s@);
                                lemma_wallpapers_push(cur, s@);
                            }
                            self.surfaces.push(s);
                            proof {
                                assert(self@ =~= cur.push(s@));
                                assert(appended_ok(self@[cur.len() as int], tm, snap));
                            }
                            proof {
                                assert(self@.last().role is Wallpaper && wp_index(self@.last())
                                    == i as int);
                                assert(has_wallpaper(self@, i as int));
                            }
                            if !leveled {
                                proof {
                                    lemma_failures_push(
                                        failures@,
                                        SyncFailure {
                                            monitor: i,
                                            error: SurfaceError::LevelingError,
                                        },
                                    );
                                }
                                failures.push(
                                    SyncFailure { monitor: i, error: SurfaceError::LevelingError },
                                );
                                proof {
                                    assert(failures@.last().monitor == i);
                                    assert(has_failure(failures@, i as int));
                                }
                            }
                        }
                    },
                }
            }
            i = i + 1;
        }
        proof {
            assert forall|k: int|
                0 <= k < tm.len() implies self@[k] == repositioned(#[trigger] tm[k], snap) by {
                assert(keep(tm[k], n as int));
            }
        }
        failures
    }

    /// Brings the wallpaper set in line with the monitor snapshot: for
    /// each monitor of `snapshot` a wallpaper surface exists afterwards at
    /// the monitor's geometry — created with `url` if missing, repositioned
    /// if present (every surface backing that monitor alike), left alone
    /// if already matching — and every wallpaper surface whose monitor is
    /// gone is destroyed. Safe to call repeatedly: after a fully
    /// successful pass an unchanged monitor set provokes no change and no
    /// native call, and after a partial failure a repeat retries only the
    /// reported creations, never re-moving a surface that already
    /// matches. Monitors that could not be served are reported one by
    /// one; a monitor whose standard label is held by a foreign surface
    /// counts as a creation failure.
    #[verifier::rlimit(60)]
    #[verifier::spinoff_prover]
    pub fn sync_wallpaper_to_monitors(&mut self, snapshot: &Vec<Geometry>, url: &String) -> (r:
        Result<(), Vec<SyncFailure>>)
        requires
            wf(old(self)@),
        ensures
            wf(final(self)@),
            sync_table_post(old(self)@, final(self)@, snapshot@),
            forall|k: int|
                0 <= k < final(self)@.len() && (#[trigger] final(self)@[k]).role is Wallpaper
                    ==> 0 <= wp_index(final(self)@[k]) < snapshot@.len() && final(self)@[k].geometry
                    == snapshot@[wp_index(final(self)@[k])],
            r is Ok ==> synced(final(self)@, snapshot@),
            synced(old(self)@, snapshot@) ==> r is Ok && final(self)@ == old(self)@
                && final(self).backend == old(self).backend,
            forall|i: int|
                0 <= i < snapshot@.len() && !has_wallpaper(old(self)@, i) ==> has_wallpaper(
                    final(self)@,
                    i,
                ) || (r matches Result::Err(fs) && has_failure(fs@, i)),
            match r {
                Result::Ok(u) => true,
                Result::Err(fs) => fs@.len() > 0 && forall|q: int|
                    0 <= q < fs@.len() ==> failure_sound(
                        #[trigger] fs@[q],
                        old(self)@,
                        final(self)@,
                        snapshot@.len() as int,
                    ),
            },
    {
        let ghost t0 = self@;
        let ghost snap = snapshot@;
        let n = snapshot.len();
        self.prune_stale_wallpapers(n);
        let ghost tm = self@;
        let failures = self.ensure_monitor_surfaces(snapshot, url);
        let ghost t1 = self@;
        let ghost fsq = failures@;
        proof {
            lemma_compose_sync_post(t0, tm, t1, snap, n as int);
            lemma_prune_wallpaper_equivalence(t0, tm, n as int);
            assert forall|i: int|
                0 <= i < snap.len() && !has_wallpaper(t0, i) implies has_wallpaper(t1, i)
                    || has_failure(fsq, i) by {
                assert(has_wallpaper(tm, i) == has_wallpaper(t0, i));
            }
            assert forall|q: int| 0 <= q < fsq.len() implies failure_sound(
                #[trigger] fsq[q],
                t0,
                t1,
                snap.len() as int,
            ) by {
                assert(failure_sound(fsq[q], tm, t1, n as int));
                assert(has_wallpaper(tm, fsq[q].monitor as int) == has_wallpaper(
                    t0,
                    fsq[q].monitor as int,
                ));
            }
            if synced(t0, snap) {
                lemma_synced_all_keep(t0, snap, n as int);
                assert(tm == t0);
                assert(synced(tm, snap));
                assert(t1 == t0 && fsq.len() == 0);
            }
        }
        if failures.len() == 0 {
            proof {
                assert forall|i: int| 0 <= i < snap.len() implies has_wallpaper(t1, i) by {
                    if !has_wallpaper(t0, i) {
                        if has_failure(fsq, i) {
                            let q = choose|q: int|
                                0 <= q < fsq.len() && fsq[q].monitor as int == i;
                            assert(false);
                        }
                    }
                }
            }
            Result::Ok(())
        } else {
            Result::Err(failures)
        }
    }

}


/// In a table synced to the snapshot every surface survives a pruning
/// against the snapshot's monitor count.
proof fn lemma_synced_all_keep(t: Seq<SurfaceModel>, snap: Seq<Geometry>, n: int)
    requires
        synced(t, snap),
        n == snap.len(),
    ensures
        forall|k: int| 0 <= k < t.len() ==> keep(#[trigger] t[k], n),
{
    assert forall|k: int| 0 <= k < t.len() implies keep(#[trigger] t[k], n) by {
        if t[k].role is Wallpaper {
            assert(wp_index(t[k]) < snap.len());
        }
    }
}

/// Monitors below `n` keep or lose their wallpaper together across a
/// pruning step that only drops stale wallpapers.
proof fn lemma_prune_wallpaper_equivalence(
    t0: Seq<SurfaceModel>,
    tm: Seq<SurfaceModel>,
    n: int,
)
    requires
        forall|k: int| 0 <= k < tm.len() ==> #[trigger] in_table(t0, tm[k]),
        forall|k0: int|
            0 <= k0 < t0.len() && keep(t0[k0], n) ==> #[trigger] in_table(tm, t0[k0]),
    ensures
        forall|i: int| 0 <= i < n ==> #[trigger] has_wallpaper(tm, i) == has_wallpaper(t0, i),
{
    assert forall|i: int| 0 <= i < n implies #[trigger] has_wallpaper(tm, i) == has_wallpaper(
        t0,
        i,
    ) by {
        if has_wallpaper(t0, i) {
            let k0 = choose|k0: int|
                0 <= k0 < t0.len() && t0[k0].role is Wallpaper && wp_index(t0[k0]) == i;
            assert(keep(t0[k0], n));
            assert(in_table(tm, t0[k0]));
            let k = choose|k: int| 0 <= k < tm.len() && tm[k] == t0[k0];
            assert(has_wallpaper(tm, i));
        }
        if has_wallpaper(tm, i) {
            let k = choose|k: int|
                0 <= k < tm.len() && tm[k].role is Wallpaper && wp_index(tm[k]) == i;
            assert(in_table(t0, tm[k]));
            let k0 = choose|k0: int| 0 <= k0 < t0.len() && t0[k0] == tm[k];
            assert(has_wallpaper(t0, i));
        }
    }
}

/// Composes a pruning step `t0 -> tm` with a per-monitor pass `tm -> t1`
/// into the overall resynchronization relation.
#[verifier::spinoff_prover]
#[verifier::rlimit(60)]
proof fn lemma_compose_sync_post(
    t0: Seq<SurfaceModel>,
    tm: Seq<SurfaceModel>,
    t1: Seq<SurfaceModel>,
    snap: Seq<Geometry>,
    n: int,
)
    requires
        n == snap.len(),
        forall|k: int| 0 <= k < tm.len() ==> keep(#[trigger] tm[k], n),
        forall|k: int| 0 <= k < tm.len() ==> #[trigger] in_table(t0, tm[k]),
        forall|k0: int|
            0 <= k0 < t0.len() && keep(t0[k0], n) ==> #[trigger] in_table(tm, t0[k0]),
        t1.len() >= tm.len(),
        forall|k: int|
            0 <= k < tm.len() ==> #[trigger] t1[k] == repositioned(tm[k], snap),
        forall|k: int|
            tm.len() <= k < t1.len() ==> appended_ok(#[trigger] t1[k], tm, snap),
    ensures
        sync_table_post(t0, t1, snap),
        forall|k2: int|
            0 <= k2 < t1.len() && (#[trigger] t1[k2]).role is Wallpaper ==> 0 <= wp_index(t1[k2])
                < snap.len() && t1[k2].geometry == snap[wp_index(t1[k2])],
        forall|i: int|
            0 <= i < snap.len() && #[trigger] has_wallpaper(t0, i) ==> has_wallpaper(t1, i),
{
    reveal(sync_table_post);
    lemma_prune_wallpaper_equivalence(t0, tm, n);
    assert forall|k: int|
        0 <= k < t0.len() && (#[trigger] t0[k]).role is Wallpaper && wp_index(t0[k]) < snap.len()
            implies exists|k2: int|
        0 <= k2 < t1.len() && t1[k2] == with_geometry(t0[k], snap[wp_index(t0[k])]) by {
        assert(keep(t0[k], n));
        assert(in_table(tm, t0[k]));
        let j = choose|j: int| 0 <= j < tm.len() && tm[j] == t0[k];
        assert(t1[j] == repositioned(tm[j], snap));
        assert(t1[j] == with_geometry(t0[k], snap[wp_index(t0[k])]));
    }
    assert forall|k: int|
        0 <= k < t0.len() && !((#[trigger] t0[k]).role is Wallpaper) implies exists|k2: int|
        0 <= k2 < t1.len() && t1[k2] == t0[k] by {
        assert(keep(t0[k], n));
        assert(in_table(tm, t0[k]));
        let j = choose|j: int| 0 <= j < tm.len() && tm[j] == t0[k];
        assert(t1[j] == repositioned(tm[j], snap));
        assert(t1[j] == t0[k]);
    }
    assert forall|k2: int|
        0 <= k2 < t1.len() && !((#[trigger] t1[k2]).role is Wallpaper) implies exists|k: int|
        0 <= k < t0.len() && t0[k] == t1[k2] by {
        assert(k2 < tm.len()) by {
            if k2 >= tm.len() {
                assert(appended_ok(t1[k2], tm, snap));
            }
        }
        assert(t1[k2] == repositioned(tm[k2], snap));
        assert(t1[k2] == tm[k2]);
        assert(in_table(t0, tm[k2]));
        let k0 = choose|k0: int| 0 <= k0 < t0.len() && t0[k0] == tm[k2];
        assert(t0[k0] == t1[k2]);
    }
    assert forall|k2: int|
        0 <= k2 < t1.len() && (#[trigger] t1[k2]).role is Wallpaper implies 0 <= wp_index(t1[k2])
            < snap.len() && t1[k2].geometry == snap[wp_index(t1[k2])] by {
        if k2 < tm.len() {
            assert(t1[k2] == repositioned(tm[k2], snap));
            assert(keep(tm[k2], n));
            assert(tm[k2].role is Wallpaper);
        } else {
            assert(appended_ok(t1[k2], tm, snap));
        }
    }
    assert forall|k2: int|
        0 <= k2 < t1.len() && (#[trigger] t1[k2]).role is Wallpaper implies (exists|k: int|
        0 <= k < t0.len() && t0[k].role == t1[k2].role && t1[k2] == with_geometry(
            t0[k],
            snap[wp_index(t1[k2])],
        )) || (!has_wallpaper(t0, wp_index(t1[k2])) && created_wallpaper(
        t1[k2],
        wp_index(t1[k2]),
        snap,
    )) by {
        if k2 < tm.len() {
            assert(t1[k2] == repositioned(tm[k2], snap));
            assert(keep(tm[k2], n));
            assert(tm[k2].role is Wallpaper);
            assert(in_table(t0, tm[k2]));
            let k0 = choose|k0: int| 0 <= k0 < t0.len() && t0[k0] == tm[k2];
            assert(t0[k0].role == t1[k2].role);
            assert(t1[k2] == with_geometry(t0[k0], snap[wp_index(t1[k2])]));
        } else {
            assert(appended_ok(t1[k2], tm, snap));
            assert(0 <= wp_index(t1[k2]) < n);
            assert(!has_wallpaper(tm, wp_index(t1[k2])));
            assert(!has_wallpaper(t0, wp_index(t1[k2])));
        }
    }
    assert forall|i: int| 0 <= i < snap.len() && has_wallpaper(t0, i) implies has_wallpaper(
        t1,
        i,
    ) by {
        assert(has_wallpaper(tm, i));
        let k = choose|k: int|
            0 <= k < tm.len() && tm[k].role is Wallpaper && wp_index(tm[k]) == i;
        assert(t1[k] == repositioned(tm[k], snap));
        assert(t1[k].role == tm[k].role);
        assert(has_wallpaper(t1, i));
    }
}

/// A resynchronization removes exactly the wallpaper surfaces whose
/// monitor indices fall outside the snapshot: none survives, every
/// wallpaper left backs a present monitor, and a wallpaper surface whose
/// geometry already matched its monitor comes through untouched.
#[verifier::rlimit(50)]
#[verifier::spinoff_prover]
pub proof fn lemma_sync_removes_exactly_stale(
    t0: Seq<SurfaceModel>,
    t1: Seq<SurfaceModel>,
    snap: Seq<Geometry>,
)
    requires
        sync_table_post(t0, t1, snap),
    ensures
        forall|k2: int|
            0 <= k2 < t1.len() && (#[trigger] t1[k2]).role is Wallpaper ==> wp_index(t1[k2])
                < snap.len(),
        forall|k: int|
            0 <= k < t0.len() && (#[trigger] t0[k]).role is Wallpaper && wp_index(t0[k])
                >= snap.len() ==> !has_wallpaper(t1, wp_index(t0[k])),
        forall|k: int|
            0 <= k < t0.len() && (#[trigger] t0[k]).role is Wallpaper && wp_index(t0[k])
                < snap.len() && t0[k].geometry == snap[wp_index(t0[k])] ==> exists|k2: int|
                0 <= k2 < t1.len() && t1[k2] == t0[k],
{
    reveal(sync_table_post);
    assert forall|k: int|
        0 <= k < t0.len() && (#[trigger] t0[k]).role is Wallpaper && wp_index(t0[k]) >= snap.len()
            implies !has_wallpaper(t1, wp_index(t0[k])) by {
        if has_wallpaper(t1, wp_index(t0[k])) {
            let k2 = choose|k2: int|
                0 <= k2 < t1.len() && t1[k2].role is Wallpaper && wp_index(t1[k2]) == wp_index(
                    t0[k],
                );
            assert(wp_index(t1[k2]) < snap.len());
        }
    }
    assert forall|k: int|
        0 <= k < t0.len() && (#[trigger] t0[k]).role is Wallpaper && wp_index(t0[k]) < snap.len()
            && t0[k].geometry == snap[wp_index(t0[k])] implies exists|k2: int|
        0 <= k2 < t1.len() && t1[k2] == t0[k] by {
        let k2 = choose|k2: int|
            0 <= k2 < t1.len() && t1[k2] == with_geometry(t0[k], snap[wp_index(t0[k])]);
        assert(with_geometry(t0[k], snap[wp_index(t0[k])]) == t0[k]);
        assert(t1[k2] == t0[k]);
    }
}

} // verus!
