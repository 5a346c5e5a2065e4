//! The typed snapshot model of the manager's state: monitors own desktops,
//! desktops own a binary tiling tree of nodes, leaves host clients.  Every
//! value here is an immutable snapshot built from one JSON reply and owned
//! as a unit by the caller.

use vstd::prelude::*;

use crate::common::{Layer, Layout, NodeCoordinates, NodeState, Rectangle};
use crate::text::{dec_chars, u32_text};

verus! {

/// The four dump queries the manager answers with a JSON document.
#[derive(Debug, Clone, Copy, PartialEq, Eq, Structural)]
pub enum BspwmTree {
    Bspwm,
    Monitor,
    Desktop,
    Node,
}

impl BspwmTree {
    /// The fixed command keyword sent for this query.
    pub open spec fn command_text(self) -> Seq<char> {
        match self {
            BspwmTree::Bspwm => "wm -d"@,
            BspwmTree::Monitor => "query -T -m"@,
            BspwmTree::Desktop => "query -T -d"@,
            BspwmTree::Node => "query -T -n"@,
        }
    }

    /// The command keyword as a string slice.
    pub fn as_str(&self) -> (r: &'static str)
        ensures
            r@ == self.command_text(),
    {
        match self {
            BspwmTree::Bspwm => "wm -d",
            BspwmTree::Monitor => "query -T -m",
            BspwmTree::Desktop => "query -T -d",
            BspwmTree::Node => "query -T -n",
        }
    }

    /// The command keyword followed by a space and a decimal id, the full
    /// command line of an id-addressed query.
    pub fn command_with_id(&self, id: u32) -> (r: String)
        ensures
            r@ == self.command_text() + seq![' '] + dec_chars(id as nat),
    {
        let mut s = self.as_str().to_owned();
        s.append(" ");
        s.append(u32_text(id).as_str());
        proof {
            reveal_strlit(" ");
            assert(" "@ =~= seq![' ']);
        }
        s
    }
}

/// The root snapshot of the manager's whole state.
#[derive(Debug)]
pub struct BspwmState {
    pub clients_count: u32,
    pub focus_history: Vec<NodeCoordinates>,
    pub focused_monitor_id: u32,
    pub monitors: Vec<Monitor>,
    pub primary_monitor_id: u32,
    pub stacking_list: Vec<u32>,
}

impl BspwmState {
    /// Every monitor's node trees satisfy the tree invariant.
    pub open spec fn wf(self) -> bool {
        forall|i: int| 0 <= i < self.monitors@.len() ==> (#[trigger] self.monitors@[i]).wf()
    }
}

/// A physical display region, owning its desktops.
#[derive(Debug)]
pub struct Monitor {
    pub border_width: u16,
    pub desktops: Vec<Desktop>,
    pub focused_desktop_id: u32,
    pub id: u32,
    pub name: String,
    pub padding: Padding,
    pub randr_id: u32,
    pub rectangle: Rectangle,
    pub sticky_count: u32,
    pub window_gap: i32,
    pub wired: bool,
}

impl Monitor {
    /// Every desktop's node tree satisfies the tree invariant.
    pub open spec fn wf(self) -> bool {
        forall|i: int| 0 <= i < self.desktops@.len() ==> (#[trigger] self.desktops@[i]).wf()
    }
}

/// A virtual workspace on a monitor; `root` is absent exactly when the
/// desktop is empty.
#[derive(Debug)]
pub struct Desktop {
    pub border_width: u16,
    pub focused_node_id: u32,
    pub id: u32,
    pub layout: Layout,
    pub name: String,
    pub padding: Padding,
    pub root: Option<Node>,
    pub user_layout: Layout,
    pub window_gap: i32,
}

impl Desktop {
    /// The node tree, if any, satisfies the tree invariant.
    pub open spec fn wf(self) -> bool {
        match self.root {
            Some(n) => n.wf(),
            None => true,
        }
    }
}

/// One element of the binary tiling tree.  A node either is a leaf (no
/// children, possibly hosting a client) or an inner split (exactly two
/// children, no client).
#[derive(Debug)]
pub struct Node {
    pub client: Option<Client>,
    pub constraints: Constraints,
    pub first_child: Option<Box<Node>>,
    pub hidden: bool,
    pub id: u32,
    pub locked: bool,
    pub marked: bool,
    pub presel: Option<Presel>,
    pub private: bool,
    pub rectangle: Rectangle,
    pub second_child: Option<Box<Node>>,
    pub split_ratio: Ratio,
    pub split_type: SplitType,
    pub sticky: bool,
    pub vacant: bool,
}

/// The nodes of an optional subtree in pre-order.
pub open spec fn opt_pre_order(child: Option<Box<Node>>) -> Seq<Node>
    decreases child,
{
    match child {
        None => Seq::empty(),
        Some(n) => n.pre_order(),
    }
}

/// The tree invariant of an optional subtree.
pub open spec fn opt_wf(child: Option<Box<Node>>) -> bool
    decreases child,
{
    match child {
        None => true,
        Some(n) => n.wf(),
    }
}

/// The dereferenced contents of a vector of node references.
pub open spec fn deref_nodes(s: Seq<&Node>) -> Seq<Node> {
    s.map_values(|n: &Node| *n)
}

/// The nodes still owed by an explicit traversal stack: the top of the
/// stack is emitted first, each as its whole subtree in pre-order.
spec fn stack_rem(st: Seq<&Node>) -> Seq<Node>
    decreases st.len(),
{
    if st.len() == 0 {
        Seq::empty()
    } else {
        (*st.last()).pre_order() + stack_rem(st.drop_last())
    }
}

impl Node {
    /// Every node of the subtree rooted here, depth first: the node itself,
    /// then the first child's subtree, then the second child's subtree.
    pub open spec fn pre_order(self) -> Seq<Node>
        decreases self,
    {
        seq![self] + opt_pre_order(self.first_child) + opt_pre_order(self.second_child)
    }

    /// How many nodes the subtree rooted here holds.
    pub open spec fn count(self) -> nat {
        self.pre_order().len()
    }

    /// The structural invariant of the tiling tree: children come in pairs
    /// (a node with exactly one child is malformed), only childless nodes
    /// may host a client, and both subtrees are themselves well formed.
    pub open spec fn wf(self) -> bool
        decreases self,
    {
        &&& (self.first_child is Some <==> self.second_child is Some)
        &&& (self.first_child is Some ==> self.client is None)
        &&& opt_wf(self.first_child)
        &&& opt_wf(self.second_child)
    }

    /// The ids of the subtree's nodes, in pre-order.
    pub open spec fn id_list(self) -> Seq<u32> {
        self.pre_order().map_values(|n: Node| n.id)
    }

    /// Collects every node of the subtree rooted at `self`, itself
    /// included, in pre-order, with an explicit stack.
    pub fn traverse(&self) -> (r: Vec<&Node>)
        ensures
            deref_nodes(r@) == self.pre_order(),
    {
        let mut stack: Vec<&Node> = Vec::new();
        let mut res: Vec<&Node> = Vec::new();
        stack.push(self);
        proof {
            assert(stack@.last() == self);
            assert(stack@.drop_last() =~= Seq::<&Node>::empty());
            assert(stack_rem(Seq::<&Node>::empty()) == Seq::<Node>::empty());
            assert(stack_rem(stack@) == (*self).pre_order() + stack_rem(stack@.drop_last()));
            assert(stack_rem(stack@) =~= self.pre_order());
            assert(deref_nodes(res@) =~= Seq::<Node>::empty());
            assert(deref_nodes(res@) + stack_rem(stack@) =~= self.pre_order());
        }
        while stack.len() != 0
            invariant
                deref_nodes(res@) + stack_rem(stack@) == self.pre_order(),
            decreases stack_rem(stack@).len(),
        {
            let ghost st0 = stack@;
            let ghost res0 = res@;
            let node = stack.pop().unwrap();
            res.push(node);
            proof {
                assert(node == st0.last());
                assert(stack@ =~= st0.drop_last());
                assert(deref_nodes(res@) =~= deref_nodes(res0) + seq![*node]);
            }
            let ghost st1 = stack@;
            match &node.second_child {
                Some(c) => {
                    stack.push(&**c);
                    proof {
                        assert(stack@.last() == &**c);
                        assert(stack@.drop_last() =~= st1);
                    }
                },
                None => {},
            }
            let ghost st2 = stack@;
            proof {
                assert(stack_rem(st2) =~= opt_pre_order(node.second_child) + stack_rem(st1));
            }
            match &node.first_child {
                Some(c) => {
                    stack.push(&**c);
                    proof {
                        assert(stack@.last() == &**c);
                        assert(stack@.drop_last() =~= st2);
                    }
                },
                None => {},
            }
            proof {
                assert(stack_rem(stack@) =~= opt_pre_order(node.first_child) + stack_rem(st2));
                assert(deref_nodes(res@) + stack_rem(stack@) =~= deref_nodes(res0) + (*
                node).pre_order() + stack_rem(st0.drop_last()));
                assert(deref_nodes(res0) + (*node).pre_order() + stack_rem(st0.drop_last()) =~=
                deref_nodes(res0) + stack_rem(st0));
            }
        }
        proof {
            assert(stack_rem(stack@) =~= Seq::<Node>::empty());
            assert(deref_nodes(res@) =~= self.pre_order());
        }
        res
    }

    /// A childless node's traversal is exactly itself.
    pub proof fn lemma_pre_order_leaf(self)
        requires
            self.first_child is None,
            self.second_child is None,
        ensures
            self.pre_order() == seq![self],
    {
        assert(self.pre_order() =~= seq![self]);
    }

    /// The traversal begins with the root.
    pub proof fn lemma_pre_order_root(self)
        ensures
            self.pre_order().len() >= 1,
            self.pre_order()[0] == self,
    {
        assert(self.pre_order()[0] == self);
    }

    /// An inner node's traversal holds the node itself and both subtrees:
    /// with two children, the subtree counts add up, one for the root.
    pub proof fn lemma_count_internal(self)
        requires
            self.first_child is Some,
            self.second_child is Some,
        ensures
            self.count() == 1 + self.first_child.unwrap().count()
                + self.second_child.unwrap().count(),
    {
    }

    /// When the subtree's ids are pairwise distinct, the traversal repeats
    /// no node: every element of `pre_order` appears exactly once.
    pub proof fn lemma_distinct_ids_no_duplicates(self)
        requires
            self.id_list().no_duplicates(),
        ensures
            self.pre_order().no_duplicates(),
    {
        let po = self.pre_order();
        let ids = self.id_list();
        assert forall|i: int, j: int|
            0 <= i < po.len() && 0 <= j < po.len() && i != j implies po[i] != po[j] by {
            assert(ids[i] == po[i].id);
            assert(ids[j] == po[j].id);
        }
    }
}

/// The X11 window occupying a leaf node.
#[derive(Debug, Clone, PartialEq)]
pub struct Client {
    pub border_width: u16,
    pub class_name: String,
    pub floating_rectangle: Rectangle,
    pub instance_name: String,
    pub last_layer: Layer,
    pub last_state: NodeState,
    pub layer: Layer,
    pub shown: bool,
    pub state: NodeState,
    pub tiled_rectangle: Rectangle,
    pub urgent: bool,
}

impl Client {
    /// The rectangle the window effectively occupies: the floating one when
    /// the window floats, the tiled one in every other state.
    pub fn get_geometry(&self) -> (r: &Rectangle)
        ensures
            *r == (if self.state == NodeState::Floating {
                self.floating_rectangle
            } else {
                self.tiled_rectangle
            }),
    {
        match self.state {
            NodeState::Floating => &self.floating_rectangle,
            _ => &self.tiled_rectangle,
        }
    }
}

/// A pending split recorded on a node awaiting a window.
#[derive(Debug, Clone, Copy, PartialEq, Eq, Structural)]
pub struct Presel {
    pub split_dir: Direction,
    pub split_ratio: Ratio,
}

/// A split ratio between zero and one, held in thousandths so that it
/// stays a plain integer (a wire value of `0.52` is held as `520`).  The
/// wire value's fraction is truncated after three digits: thousandths are
/// the resolution this model keeps.
#[derive(Debug, Clone, Copy, PartialEq, Eq, Structural)]
pub struct Ratio {
    pub thousandths: u32,
}

/// Per-side padding of a monitor or desktop.
#[derive(Debug, Clone, Copy, PartialEq, Eq, Structural)]
pub struct Padding {
    pub top: i16,
    pub right: i16,
    pub bottom: i16,
    pub left: i16,
}

/// Minimum extent a node insists on.
#[derive(Debug, Clone, Copy, PartialEq, Eq, Structural)]
pub struct Constraints {
    pub min_width: u16,
    pub min_height: u16,
}

/// How an inner node splits its rectangle; `horizontal` or `vertical` on
/// the wire.
#[derive(Debug, Clone, Copy, PartialEq, Eq, Structural)]
pub enum SplitType {
    Horizontal,
    Vertical,
}

/// A preselection direction; `north`, `west`, `south` or `east` on the
/// wire.
#[derive(Debug, Clone, Copy, PartialEq, Eq, Structural)]
pub enum Direction {
    North,
    West,
    South,
    East,
}


/// The mathematical shadow of `Client`: the same fields with strings as
/// character sequences.  Decode contracts speak of these shadows.
pub struct ClientV {
    pub border_width: u16,
    pub class_name: Seq<char>,
    pub floating_rectangle: Rectangle,
    pub instance_name: Seq<char>,
    pub last_layer: Layer,
    pub last_state: NodeState,
    pub layer: Layer,
    pub shown: bool,
    pub state: NodeState,
    pub tiled_rectangle: Rectangle,
    pub urgent: bool,
}

/// The mathematical shadow of `Node`.  The two optional children appear
/// as a sequence: empty for a leaf, the first and second child's shadows
/// for an inner split.
pub struct NodeV {
    pub client: Option<ClientV>,
    pub constraints: Constraints,
    pub children: Seq<NodeV>,
    pub hidden: bool,
    pub id: u32,
    pub locked: bool,
    pub marked: bool,
    pub presel: Option<Presel>,
    pub private: bool,
    pub rectangle: Rectangle,
    pub split_ratio: Ratio,
    pub split_type: SplitType,
    pub sticky: bool,
    pub vacant: bool,
}

/// The mathematical shadow of `Desktop`.
pub struct DesktopV {
    pub border_width: u16,
    pub focused_node_id: u32,
    pub id: u32,
    pub layout: Layout,
    pub name: Seq<char>,
    pub padding: Padding,
    pub root: Option<NodeV>,
    pub user_layout: Layout,
    pub window_gap: i32,
}

/// The mathematical shadow of `Monitor`.
pub struct MonitorV {
    pub border_width: u16,
    pub desktops: Seq<DesktopV>,
    pub focused_desktop_id: u32,
    pub id: u32,
    pub name: Seq<char>,
    pub padding: Padding,
    pub randr_id: u32,
    pub rectangle: Rectangle,
    pub sticky_count: u32,
    pub window_gap: i32,
    pub wired: bool,
}

/// The mathematical shadow of `BspwmState`.
pub struct BspwmStateV {
    pub clients_count: u32,
    pub focus_history: Seq<NodeCoordinates>,
    pub focused_monitor_id: u32,
    pub monitors: Seq<MonitorV>,
    pub primary_monitor_id: u32,
    pub stacking_list: Seq<u32>,
}

/// The shadow of a client value.
pub open spec fn client_view(c: Client) -> ClientV {
    ClientV {
        border_width: c.border_width,
        class_name: c.class_name@,
        floating_rectangle: c.floating_rectangle,
        instance_name: c.instance_name@,
        last_layer: c.last_layer,
        last_state: c.last_state,
        layer: c.layer,
        shown: c.shown,
        state: c.state,
        tiled_rectangle: c.tiled_rectangle,
        urgent: c.urgent,
    }
}

/// The shadow of a node and its whole subtree.
pub open spec fn node_view(n: Node) -> NodeV
    decreases n,
{
    NodeV {
        client: match n.client {
            Some(c) => Some(client_view(c)),
            None => None,
        },
        constraints: n.constraints,
        children: (match n.first_child {
            Some(c) => seq![node_view(*c)],
            None => Seq::empty(),
        }) + (match n.second_child {
            Some(c) => seq![node_view(*c)],
            None => Seq::empty(),
        }),
        hidden: n.hidden,
        id: n.id,
        locked: n.locked,
        marked: n.marked,
        presel: n.presel,
        private: n.private,
        rectangle: n.rectangle,
        split_ratio: n.split_ratio,
        split_type: n.split_type,
        sticky: n.sticky,
        vacant: n.vacant,
    }
}

/// The shadow of a desktop.
pub open spec fn desktop_view(d: Desktop) -> DesktopV {
    DesktopV {
        border_width: d.border_width,
        focused_node_id: d.focused_node_id,
        id: d.id,
        layout: d.layout,
        name: d.name@,
        padding: d.padding,
        root: match d.root {
            Some(n) => Some(node_view(n)),
            None => None,
        },
        user_layout: d.user_layout,
        window_gap: d.window_gap,
    }
}

/// The shadow of a monitor.
pub open spec fn monitor_view(m: Monitor) -> MonitorV {
    MonitorV {
        border_width: m.border_width,
        desktops: m.desktops@.map_values(|d: Desktop| desktop_view(d)),
        focused_desktop_id: m.focused_desktop_id,
        id: m.id,
        name: m.name@,
        padding: m.padding,
        randr_id: m.randr_id,
        rectangle: m.rectangle,
        sticky_count: m.sticky_count,
        window_gap: m.window_gap,
        wired: m.wired,
    }
}

/// The shadow of the whole state snapshot.
pub open spec fn state_view(s: BspwmState) -> BspwmStateV {
    BspwmStateV {
        clients_count: s.clients_count,
        focus_history: s.focus_history@,
        focused_monitor_id: s.focused_monitor_id,
        monitors: s.monitors@.map_values(|m: Monitor| monitor_view(m)),
        primary_monitor_id: s.primary_monitor_id,
        stacking_list: s.stacking_list@,
    }
}

} // verus!
