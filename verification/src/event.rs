//! Payload shapes for the manager's state-change notification stream.  The
//! stream itself is an external producer that this crate does not decode;
//! only the event names and their typed payloads are defined here.

use vstd::prelude::*;

use crate::common::{
    DesktopCoordinates, Layer, Layout, NodeCoordinates, NodeFlag, NodeState, PointerAction,
    Rectangle,
};

verus! {

/// One notification from the manager, tagged by the event name it uses on
/// the wire.
#[derive(Debug, Clone, PartialEq)]
pub enum BspwmEvent {
    Report(ReportEvent),
    MonitorAdd(MonitorAddEvent),
    MonitorRename(MonitorRenameEvent),
    MonitorRemove(MonitorRemoveEvent),
    MonitorSwap(MonitorSwapEvent),
    MonitorFocus(MonitorFocusEvent),
    MonitorGeometry(MonitorGeometryEvent),
    DesktopAdd(DesktopAddEvent),
    DesktopRename(DesktopRenameEvent),
    DesktopRemove(DesktopRemoveEvent),
    DesktopSwap(DesktopSwapEvent),
    DesktopTransfer(DesktopTransferEvent),
    DesktopFocus(DesktopFocusEvent),
    DesktopActivate(DesktopActivateEvent),
    DesktopLayout(DesktopLayoutEvent),
    NodeAdd(NodeAddEvent),
    NodeRemove(NodeRemoveEvent),
    NodeSwap(NodeSwapEvent),
    NodeTransfer(NodeTransferEvent),
    NodeFocus(NodeFocusEvent),
    NodeActivate(NodeActivateEvent),
    NodePresel(NodePreselEvent),
    NodeStack(NodeStackEvent),
    NodeGeometry(NodeGeometryEvent),
    NodeState(NodeStateEvent),
    NodeFlag(NodeFlagEvent),
    NodeLayer(NodeLayerEvent),
    PointerAction(PointerActionEvent),
}

impl BspwmEvent {
    /// The event name the manager prints at the head of the notification
    /// line for this event.
    pub open spec fn name_text(self) -> Seq<char> {
        match self {
            BspwmEvent::Report(_) => "report"@,
            BspwmEvent::MonitorAdd(_) => "monitor_add"@,
            BspwmEvent::MonitorRename(_) => "monitor_rename"@,
            BspwmEvent::MonitorRemove(_) => "monitor_remove"@,
            BspwmEvent::MonitorSwap(_) => "monitor_swap"@,
            BspwmEvent::MonitorFocus(_) => "monitor_focus"@,
            BspwmEvent::MonitorGeometry(_) => "monitor_geometry"@,
            BspwmEvent::DesktopAdd(_) => "desktop_add"@,
            BspwmEvent::DesktopRename(_) => "desktop_rename"@,
            BspwmEvent::DesktopRemove(_) => "desktop_remove"@,
            BspwmEvent::DesktopSwap(_) => "desktop_swap"@,
            BspwmEvent::DesktopTransfer(_) => "desktop_transfer"@,
            BspwmEvent::DesktopFocus(_) => "desktop_focus"@,
            BspwmEvent::DesktopActivate(_) => "desktop_activate"@,
            BspwmEvent::DesktopLayout(_) => "desktop_layout"@,
            BspwmEvent::NodeAdd(_) => "node_add"@,
            BspwmEvent::NodeRemove(_) => "node_remove"@,
            BspwmEvent::NodeSwap(_) => "node_swap"@,
            BspwmEvent::NodeTransfer(_) => "node_transfer"@,
            BspwmEvent::NodeFocus(_) => "node_focus"@,
            BspwmEvent::NodeActivate(_) => "node_activate"@,
            BspwmEvent::NodePresel(_) => "node_presel"@,
            BspwmEvent::NodeStack(_) => "node_stack"@,
            BspwmEvent::NodeGeometry(_) => "node_geometry"@,
            BspwmEvent::NodeState(_) => "node_state"@,
            BspwmEvent::NodeFlag(_) => "node_flag"@,
            BspwmEvent::NodeLayer(_) => "node_layer"@,
            BspwmEvent::PointerAction(_) => "pointer_action"@,
        }
    }

    /// The event name as a string slice.
    pub fn as_str(&self) -> (r: &'static str)
        ensures
            r@ == self.name_text(),
    {
        match self {
            BspwmEvent::Report(_) => "report",
            BspwmEvent::MonitorAdd(_) => "monitor_add",
            BspwmEvent::MonitorRename(_) => "monitor_rename",
            BspwmEvent::MonitorRemove(_) => "monitor_remove",
            BspwmEvent::MonitorSwap(_) => "monitor_swap",
            BspwmEvent::MonitorFocus(_) => "monitor_focus",
            BspwmEvent::MonitorGeometry(_) => "monitor_geometry",
            BspwmEvent::DesktopAdd(_) => "desktop_add",
            BspwmEvent::DesktopRename(_) => "desktop_rename",
            BspwmEvent::DesktopRemove(_) => "desktop_remove",
            BspwmEvent::DesktopSwap(_) => "desktop_swap",
            BspwmEvent::DesktopTransfer(_) => "desktop_transfer",
            BspwmEvent::DesktopFocus(_) => "desktop_focus",
            BspwmEvent::DesktopActivate(_) => "desktop_activate",
            BspwmEvent::DesktopLayout(_) => "desktop_layout",
            BspwmEvent::NodeAdd(_) => "node_add",
            BspwmEvent::NodeRemove(_) => "node_remove",
            BspwmEvent::NodeSwap(_) => "node_swap",
            BspwmEvent::NodeTransfer(_) => "node_transfer",
            BspwmEvent::NodeFocus(_) => "node_focus",
            BspwmEvent::NodeActivate(_) => "node_activate",
            BspwmEvent::NodePresel(_) => "node_presel",
            BspwmEvent::NodeStack(_) => "node_stack",
            BspwmEvent::NodeGeometry(_) => "node_geometry",
            BspwmEvent::NodeState(_) => "node_state",
            BspwmEvent::NodeFlag(_) => "node_flag",
            BspwmEvent::NodeLayer(_) => "node_layer",
            BspwmEvent::PointerAction(_) => "pointer_action",
        }
    }
}

/// The manager's one-line textual summary of its whole state.
#[derive(Debug, Clone, PartialEq)]
pub struct ReportEvent {
    pub report: String,
}

/// A monitor appeared.
#[derive(Debug, Clone, PartialEq)]
pub struct MonitorAddEvent {
    pub monitor_id: u32,
    pub monitor_name: String,
    pub monitor_geometry: Rectangle,
}

/// A monitor was renamed.
#[derive(Debug, Clone, PartialEq)]
pub struct MonitorRenameEvent {
    pub monitor_id: u32,
    pub old_name: String,
    pub new_name: String,
}

/// A monitor disappeared.
#[derive(Debug, Clone, Copy, PartialEq, Eq, Structural)]
pub struct MonitorRemoveEvent {
    pub monitor_id: u32,
}

/// Two monitors exchanged their contents.
#[derive(Debug, Clone, Copy, PartialEq, Eq, Structural)]
pub struct MonitorSwapEvent {
    pub src_monitor_id: u32,
    pub dst_monitor_id: u32,
}

/// The focus moved to another monitor.
#[derive(Debug, Clone, Copy, PartialEq, Eq, Structural)]
pub struct MonitorFocusEvent {
    pub coordinates: u32,
}

/// A monitor's bounding rectangle changed.
#[derive(Debug, Clone, Copy, PartialEq, Eq, Structural)]
pub struct MonitorGeometryEvent {
    pub coordinates: u32,
    pub geometry: Rectangle,
}

/// A desktop appeared.
#[derive(Debug, Clone, Copy, PartialEq, Eq, Structural)]
pub struct DesktopAddEvent {
    pub coordinates: DesktopCoordinates,
}

/// A desktop was renamed.
#[derive(Debug, Clone, PartialEq)]
pub struct DesktopRenameEvent {
    pub coordinates: DesktopCoordinates,
    pub old_name: String,
    pub new_name: String,
}

/// A desktop disappeared.
#[derive(Debug, Clone, Copy, PartialEq, Eq, Structural)]
pub struct DesktopRemoveEvent {
    pub coordinates: DesktopCoordinates,
}

/// Two desktops exchanged their places.
#[derive(Debug, Clone, Copy, PartialEq, Eq, Structural)]
pub struct DesktopSwapEvent {
    pub src: DesktopCoordinates,
    pub dst: DesktopCoordinates,
}

/// A desktop moved to another monitor.
#[derive(Debug, Clone, Copy, PartialEq, Eq, Structural)]
pub struct DesktopTransferEvent {
    pub coordinates: DesktopCoordinates,
    pub dst_monitor_id: u32,
}

/// The focus moved to another desktop.
#[derive(Debug, Clone, Copy, PartialEq, Eq, Structural)]
pub struct DesktopFocusEvent {
    pub coordinates: DesktopCoordinates,
}

/// A desktop became the visible one on its monitor.
#[derive(Debug, Clone, Copy, PartialEq, Eq, Structural)]
pub struct DesktopActivateEvent {
    pub coordinates: DesktopCoordinates,
}

/// A desktop's layout changed.
#[derive(Debug, Clone, Copy, PartialEq, Eq, Structural)]
pub struct DesktopLayoutEvent {
    pub coordinates: DesktopCoordinates,
    pub layout: Layout,
}

/// A node entered the tree.
#[derive(Debug, Clone, Copy, PartialEq, Eq, Structural)]
pub struct NodeAddEvent {
    pub coordinates: NodeCoordinates,
    pub node_id: u32,
}

/// A node left the tree.
#[derive(Debug, Clone, Copy, PartialEq, Eq, Structural)]
pub struct NodeRemoveEvent {
    pub coordinates: NodeCoordinates,
}

/// Two nodes exchanged their places.
#[derive(Debug, Clone, Copy, PartialEq, Eq, Structural)]
pub struct NodeSwapEvent {
    pub src: NodeCoordinates,
    pub dst: NodeCoordinates,
}

/// A node moved to another place in the tree.
#[derive(Debug, Clone, Copy, PartialEq, Eq, Structural)]
pub struct NodeTransferEvent {
    pub src: NodeCoordinates,
    pub dst: NodeCoordinates,
}

/// The focus moved to another node.
#[derive(Debug, Clone, Copy, PartialEq, Eq, Structural)]
pub struct NodeFocusEvent {
    pub coordinates: NodeCoordinates,
}

/// A node became its desktop's active node.
#[derive(Debug, Clone, Copy, PartialEq, Eq, Structural)]
pub struct NodeActivateEvent {
    pub coordinates: NodeCoordinates,
}

/// A node's pending split preselection changed; the payload keeps the
/// manager's textual form.
#[derive(Debug, Clone, PartialEq)]
pub struct NodePreselEvent {
    pub coordinates: NodeCoordinates,
    pub presel: String,
}

/// One node was restacked above or below another; the relation keeps the
/// manager's textual form.
#[derive(Debug, Clone, PartialEq)]
pub struct NodeStackEvent {
    pub node_id_1: u32,
    pub change: String,
    pub node_id_2: u32,
}

/// A node's rectangle changed.
#[derive(Debug, Clone, Copy, PartialEq, Eq, Structural)]
pub struct NodeGeometryEvent {
    pub coordinates: NodeCoordinates,
    pub geometry: Rectangle,
}

/// A window's state was set or unset.
#[derive(Debug, Clone, Copy, PartialEq, Eq, Structural)]
pub struct NodeStateEvent {
    pub coordinates: NodeCoordinates,
    pub state: NodeState,
    pub status: bool,
}

/// A node's flag was set or unset.
#[derive(Debug, Clone, Copy, PartialEq, Eq, Structural)]
pub struct NodeFlagEvent {
    pub coordinates: NodeCoordinates,
    pub flag: NodeFlag,
    pub status: bool,
}

/// A window moved to another stacking layer.
#[derive(Debug, Clone, Copy, PartialEq, Eq, Structural)]
pub struct NodeLayerEvent {
    pub coordinates: NodeCoordinates,
    pub layer: Layer,
}

/// A pointer action started or ended on a window.
#[derive(Debug, Clone, Copy, PartialEq, Eq, Structural)]
pub struct PointerActionEvent {
    pub coordinates: NodeCoordinates,
    pub action: PointerAction,
    pub status: bool,
}

} // verus!
