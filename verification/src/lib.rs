//! Checks whether the windows of a tiling compositor are arranged as a
//! declared layout demands.
//!
//! A [`layout::Layout`] declares a tree of windows and containers. It is
//! held against one snapshot of the compositor's scene graph, a
//! [`scene::SceneNode`]: the declared tree is first reduced to the part of
//! it whose windows are there at all, and what is left is compared, shape
//! by shape, with the workspace that the layout is meant for.

pub mod chat;
pub mod layout;
pub mod matcher;
pub mod reduce;
pub mod resolve;
pub mod scan;
pub mod scene;
pub mod search;
pub mod util;
