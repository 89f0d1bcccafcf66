use vstd::prelude::*;

verus! {

/// The error taxonomy of the surface manager.
///
/// `NotFound` and `WindowCreationError` surface synchronously to the caller
/// of the originating operation. `LevelingError` surfaces to the caller but
/// does not roll back surface creation: the window exists, merely at its
/// fallback depth. `EnumerationError` and `ListenerInstallError` originate in
/// background loops with no synchronous caller; the embedding application
/// logs them and the feature degrades silently.
#[derive(Clone, Copy, Debug, PartialEq, Eq, Structural)]
pub enum SurfaceError {
    /// An operation referenced a label no surface carries.
    NotFound,
    /// The operating system refused to create a window. A
    /// resynchronization also reports a monitor under this variant when
    /// the standard wallpaper label for it is already taken by another
    /// surface, so that no window could be registered for that monitor.
    WindowCreationError,
    /// The window exists but the desired compositor depth could not be
    /// applied; the surface remains usable at its fallback level.
    LevelingError,
    /// Monitor enumeration failed; treated as transient.
    EnumerationError,
    /// The global input hook could not be installed.
    ListenerInstallError,
}

} // verus!
