//! Verified control logic for a per-frame GPU compute renderer.
//!
//! The crate models the scheduling core of a renderer that dispatches a
//! compute program once per display frame and presents the result to a
//! surface: queue selection, pipeline and binding layout, presentable-image
//! ownership, work-group sizing, per-frame resource lifetimes, and the
//! frame state machine.  Device and window work itself (Vulkan calls, event
//! polling) stays outside; the functions here decide what that work must be
//! and in what order, and their contracts pin those decisions down.

pub mod camera;
pub mod chain;
pub mod device;
pub mod dispatch;
pub mod error;
pub mod layout;
pub mod resources;
pub mod scheduler;
