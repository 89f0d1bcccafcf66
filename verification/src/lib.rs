//! Desktop surface management: per-monitor wallpaper window lifecycle,
//! compositor level placement, monitor-topology resynchronization, and a
//! global pointer-input relay.
//!
//! The library is organised around a [`registry::SurfaceRegistry`] that owns
//! the table of managed surfaces and drives an OS backend through the
//! [`backend::PlatformBackend`] capability trait, a [`topology::TopologyWatcher`]
//! that decides when the wallpaper set must be resynchronized, and a
//! [`relay::RelayState`] machine that classifies raw pointer events into the
//! structured stream delivered to subscribers.

pub mod backend;
pub mod errors;
pub mod geometry;
pub mod labels;
pub mod registry;
pub mod relay;
pub mod surface;
pub mod sync;
pub mod topology;
