//! Window placement, shortcuts and settings for a Windows window manager.
//!
//! The crate holds the decisions: where an action puts a window, which edge a
//! drag snaps to, what a settings document means and how older documents are
//! migrated. The code that talks to Windows, the disk and the screen calls into
//! it.

pub mod action;
pub mod appearance;
pub mod capture;
pub mod config;
pub mod document;
pub mod geometry;
pub mod hotkeys;
pub mod json;
pub mod runtime;
pub mod keys;
pub mod members;
pub mod schema;
pub mod settings;
pub mod snap;
pub mod storage;
pub mod ui;

pub use action::Action;
pub use geometry::{LayoutEngine, NormalizedRect, Point, Rect, MAX_GAP, NORMALIZED_SCALE, USER_DEFAULT_SCREEN_DPI};
