use vstd::prelude::*;
use crate::geometry::Geometry;

verus! {

/// What a managed surface is for. The role determines the default
/// attachment level.
#[derive(Clone, Copy, Debug, PartialEq, Eq, Structural)]
pub enum SurfaceRole {
    /// A wallpaper window backing the monitor with the given positional
    /// index in the most recent enumeration.
    Wallpaper(usize),
    /// A floating overlay widget shown above normal windows.
    FloatingWidget,
    /// A floating menu panel, shown and hidden on demand.
    FloatingMenu,
}

/// The compositor depth last applied to a surface.
#[derive(Clone, Copy, Debug, PartialEq, Eq, Structural)]
pub enum LevelState {
    /// Desktop-background depth: above the desktop paint, below the icons.
    DesktopBackground,
    /// Sorts below normal sibling windows without shell re-parenting; the
    /// fallback when the stronger desktop attachment is unavailable.
    AlwaysOnBottom,
    /// Floats above everything.
    AlwaysOnTop,
}

/// One managed window.
pub struct Surface {
    /// Unique identifier; the primary key of the registry, stable for the
    /// window's lifetime.
    pub label: String,
    pub role: SurfaceRole,
    pub geometry: Geometry,
    /// The level last applied through the platform backend.
    pub level: LevelState,
    pub visible: bool,
}

/// The mathematical image of a [`Surface`]: the same fields with the label
/// as a sequence of characters.
pub struct SurfaceModel {
    pub label: Seq<char>,
    pub role: SurfaceRole,
    pub geometry: Geometry,
    pub level: LevelState,
    pub visible: bool,
}

impl View for Surface {
    type V = SurfaceModel;

    open spec fn view(&self) -> SurfaceModel {
        SurfaceModel {
            label: self.label@,
            role: self.role,
            geometry: self.geometry,
            level: self.level,
            visible: self.visible,
        }
    }
}

/// The attachment level a freshly created surface of the given role is
/// placed at.
pub open spec fn role_level(role: SurfaceRole) -> LevelState {
    match role {
        SurfaceRole::Wallpaper(_) => LevelState::DesktopBackground,
        SurfaceRole::FloatingWidget => LevelState::AlwaysOnTop,
        SurfaceRole::FloatingMenu => LevelState::AlwaysOnTop,
    }
}

/// Executable twin of [`role_level`].
pub fn default_level(role: SurfaceRole) -> (l: LevelState)
    ensures
        l == role_level(role),
{
    match role {
        SurfaceRole::Wallpaper(_) => LevelState::DesktopBackground,
        SurfaceRole::FloatingWidget => LevelState::AlwaysOnTop,
        SurfaceRole::FloatingMenu => LevelState::AlwaysOnTop,
    }
}

/// The level a textual level request stands for: `"below"` asks for true
/// desktop-background attachment, `"top"` floats the surface above
/// everything, and any other request falls back to the weak
/// always-on-bottom placement.
pub open spec fn level_of_request(s: Seq<char>) -> LevelState {
    if s == "below"@ {
        LevelState::DesktopBackground
    } else if s == "top"@ {
        LevelState::AlwaysOnTop
    } else {
        LevelState::AlwaysOnBottom
    }
}

/// Parses the textual level request used by the front-end surface.
pub fn parse_level_request(s: &String) -> (l: LevelState)
    ensures
        l == level_of_request(s@),
{
    let below = String::from_str("below");
    let top = String::from_str("top");
    if *s == below {
        LevelState::DesktopBackground
    } else if *s == top {
        LevelState::AlwaysOnTop
    } else {
        LevelState::AlwaysOnBottom
    }
}

} // verus!
