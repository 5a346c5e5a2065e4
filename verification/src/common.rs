//! Small value types shared across the state model and the event payloads:
//! coordinates, geometry, and the enums whose lowercase tokens the manager
//! uses on the wire.

use vstd::prelude::*;

verus! {

/// Addresses a desktop: the id of its monitor and its own id.
#[derive(Debug, Clone, Copy, PartialEq, Eq, Structural)]
pub struct DesktopCoordinates {
    pub monitor_id: u32,
    pub id: u32,
}

/// The per-node boolean flags the manager can toggle.
#[derive(Debug, Clone, Copy, PartialEq, Eq, Structural)]
pub enum NodeFlag {
    Hidden,
    Sticky,
    Private,
    Locked,
    Marked,
    Urgent,
}

/// What a pointer grab on a window is doing.
#[derive(Debug, Clone, Copy, PartialEq, Eq, Structural)]
pub enum PointerAction {
    Move,
    ResizeCorner,
    ResizeSide,
}

/// A screen-space rectangle: signed position, unsigned extent.
#[derive(Debug, Clone, Copy, PartialEq, Eq, Structural)]
pub struct Rectangle {
    pub x: i16,
    pub y: i16,
    pub width: u16,
    pub height: u16,
}

/// Addresses a node: the ids of its monitor, its desktop and itself.
#[derive(Debug, Clone, Copy, PartialEq, Eq, Structural)]
pub struct NodeCoordinates {
    pub monitor_id: u32,
    pub desktop_id: u32,
    pub node_id: u32,
}

/// A desktop's layout mode; `tiled` or `monocle` on the wire.
#[derive(Debug, Clone, Copy, PartialEq, Eq, Structural)]
pub enum Layout {
    Tiled,
    Monocle,
}

/// A window's stacking layer; `below`, `normal` or `above` on the wire.
#[derive(Debug, Clone, Copy, PartialEq, Eq, Structural)]
pub enum Layer {
    Below,
    Normal,
    Above,
}

/// A window's state; `tiled`, `pseudo_tiled`, `floating` or `fullscreen`
/// on the wire.
#[derive(Debug, Clone, Copy, PartialEq, Eq, Structural)]
pub enum NodeState {
    Tiled,
    PseudoTiled,
    Floating,
    Fullscreen,
}

} // verus!
