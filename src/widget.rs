use std::rc::Rc;
use vstd::prelude::*;

use crate::event::{Event, EventKind};
use crate::geometry::{Border, Point, Size};
use crate::kinds::{sat_add, DrawOp, WidgetKind};
use crate::state::{contains, AnimationState, Geometry, WidgetState};

verus! {

/// One node of a widget tree: its state, its shared behavior, the indices of
/// its children in order and the index of its parent.
pub struct WidgetNode<K> {
    pub state: WidgetState,
    pub kind: Rc<K>,
    pub children: Vec<usize>,
    pub parent: Option<usize>,
}

/// A widget and its subtree, held as an arena of nodes. The widget itself is
/// node 0; every child stands after its parent.
pub struct Widget<K> {
    pub nodes: Vec<WidgetNode<K>>,
}

/// `w` is a single fresh widget of the given kind and geometry: no children,
/// no background, no callbacks, no theme, pointer not inside.
pub open spec fn lone_widget<K>(
    w: Widget<K>,
    kind: Rc<K>,
    size: Size,
    position: Point,
    border: Border,
) -> bool {
    &&& nodes_wf(w.nodes@)
    &&& w.nodes@.len() == 1
    &&& w.nodes@[0].kind == kind
    &&& w.nodes@[0].children@.len() == 0
    &&& w.nodes@[0].state.size == size
    &&& w.nodes@[0].state.position == position
    &&& w.nodes@[0].state.border == border
    &&& !w.nodes@[0].state.mouse_is_inside
    &&& w.nodes@[0].state.background is None
    &&& w.nodes@[0].state.animation_state == AnimationState::Base
    &&& w.nodes@[0].state.callbacks@.len() == 0
    &&& w.nodes@[0].state.theme is None
    &&& w.nodes@[0].state.theme_id@.len() == 0
}

/// Every child index lies after its parent and inside the arena; every node
/// but the first has a parent before it.
pub open spec fn nodes_wf<K>(t: Seq<WidgetNode<K>>) -> bool {
    &&& t.len() >= 1
    &&& t[0].parent is None
    &&& forall|i: int, k: int|
        0 <= i < t.len() && 0 <= k < t[i].children@.len() ==> i < #[trigger] t[i].children@[k]
            < t.len()
    &&& forall|i: int| 0 < i < t.len() ==> (#[trigger] t[i].parent matches Some(p) && p < i)
}

/// Node `c` with its "mouse is inside" flag set to `b`.
pub open spec fn set_inside<K>(t: Seq<WidgetNode<K>>, c: int, b: bool) -> Seq<WidgetNode<K>> {
    t.update(c, WidgetNode { state: WidgetState { mouse_is_inside: b, ..t[c].state }, ..t[c] })
}

/// The nodes, and whether the event was handled, after node `i` (with `n`
/// nodes in all) takes `e`: its children first, in order, then itself.
pub open spec fn dispatch_node<K: WidgetKind>(t: Seq<WidgetNode<K>>, i: int, e: Event, n: int) -> (
    Seq<WidgetNode<K>>,
    bool,
)
    decreases n - i, 1int, 0int,
{
    if !(0 <= i < n) {
        (t, false)
    } else {
        let (t1, handled) = dispatch_children(t, i, t[i].children@, 0, e, n);
        if handled {
            (t1, true)
        } else {
            (t1, t[i].kind.handles(e))
        }
    }
}

/// The event a child is sent before anything else when it is visited: an enter
/// when the pointer is inside it and was not before, an exit when the pointer
/// was inside it and has left, otherwise none.
pub open spec fn presence_notice(was_inside: bool, inside: bool) -> Option<EventKind> {
    if inside && !was_inside {
        Some(EventKind::MouseEnter)
    } else if !inside && was_inside {
        Some(EventKind::MouseExit)
    } else {
        None
    }
}

/// Child `c` visited with `e`: it is first sent its presence notice, which also
/// records whether the pointer is inside it; then, if the pointer is inside,
/// it takes `e` itself.
pub open spec fn visit_child<K: WidgetKind>(t: Seq<WidgetNode<K>>, c: int, e: Event, n: int) -> (
    Seq<WidgetNode<K>>,
    bool,
)
    decreases n - c, 2int, 0int,
{
    if !(0 <= c < n) || c >= t.len() {
        (t, false)
    } else {
        let inside = contains(t[c].state.position, t[c].state.size, e.mouse);
        let t1 = match presence_notice(t[c].state.mouse_is_inside, inside) {
            Some(kind) => set_inside(
                dispatch_node(t, c, Event { kind, mouse: e.mouse }, n).0,
                c,
                inside,
            ),
            None => t,
        };
        if inside {
            dispatch_node(t1, c, e, n)
        } else {
            (t1, false)
        }
    }
}

/// Children `kids[k..]` of node `i` are visited with `e` in order, until one
/// handles it.
pub open spec fn dispatch_children<K: WidgetKind>(
    t: Seq<WidgetNode<K>>,
    i: int,
    kids: Seq<usize>,
    k: int,
    e: Event,
    n: int,
) -> (Seq<WidgetNode<K>>, bool)
    decreases n - i, 0int, kids.len() - k,
{
    if !(0 <= k < kids.len()) || !(0 <= i < n) || !(i < kids[k] < n) {
        (t, false)
    } else {
        let (t1, handled) = visit_child(t, kids[k] as int, e, n);
        if handled {
            (t1, true)
        } else {
            dispatch_children(t1, i, kids, k + 1, e, n)
        }
    }
}

/// Two arenas with the same nodes but for the "mouse is inside" flags.
pub open spec fn same_shape<K>(a: Seq<WidgetNode<K>>, b: Seq<WidgetNode<K>>) -> bool {
    &&& a.len() == b.len()
    &&& forall|j: int|
        0 <= j < a.len() ==> {
            &&& (#[trigger] b[j]).children == a[j].children
            &&& b[j].kind == a[j].kind
            &&& b[j].parent == a[j].parent
            &&& b[j].state.position == a[j].state.position
            &&& b[j].state.size == a[j].state.size
            &&& b[j].state.border == a[j].state.border
        }
}

/// `to` is node `from` of another arena, moved to stand `offset` places later:
/// same state and kind, children shifted, and the old root now a child of node 0.
pub open spec fn moved<K>(from: WidgetNode<K>, to: WidgetNode<K>, offset: int) -> bool {
    &&& to.state == from.state
    &&& to.kind == from.kind
    &&& to.children@.len() == from.children@.len()
    &&& forall|m: int| 0 <= m < from.children@.len() ==> to.children@[m] == from.children@[m] + offset
    &&& to.parent == match from.parent {
        Some(p) => Some((p + offset) as usize),
        None => Some(0usize),
    }
}

/// The corner of a widget's content area: its position moved past the border.
pub open spec fn inner_origin(g: Geometry) -> Point {
    Point { x: sat_add(g.position.x, g.border.left), y: sat_add(g.position.y, g.border.top) }
}

/// The corner that node `j` is placed against: its parent's content area, or
/// `origin` for the root.
pub open spec fn origin_for<K>(t: Seq<WidgetNode<K>>, j: int, origin: Point) -> Point {
    match t[j].parent {
        Some(p) => if 0 <= p < j {
            inner_origin(t[p as int].state.geometry())
        } else {
            origin
        },
        None => origin,
    }
}

/// Node `j` after its kind has laid it out.
pub open spec fn relayout<K: WidgetKind>(t: Seq<WidgetNode<K>>, j: int, origin: Point) -> WidgetNode<
    K,
> {
    let g = t[j].kind.layout_of(t[j].state.geometry(), t[j].state.theme, origin_for(t, j, origin));
    WidgetNode {
        state: WidgetState { size: g.size, position: g.position, border: g.border, ..t[j].state },
        ..t[j]
    }
}

/// The nodes after the first `k` of them have been laid out, in order, so
/// that each parent is placed before its children.
pub open spec fn laid_out_prefix<K: WidgetKind>(t: Seq<WidgetNode<K>>, k: nat, origin: Point) -> Seq<
    WidgetNode<K>,
>
    decreases k,
{
    if k == 0 || k > t.len() {
        t
    } else {
        let t1 = laid_out_prefix(t, (k - 1) as nat, origin);
        t1.update(k - 1, relayout(t1, k - 1, origin))
    }
}

/// The nodes after a full layout pass from `origin`.
pub open spec fn laid_out<K: WidgetKind>(t: Seq<WidgetNode<K>>, origin: Point) -> Seq<WidgetNode<K>> {
    laid_out_prefix(t, t.len(), origin)
}

/// The background fill of a node, if it has a background.
pub open spec fn background_ops<K>(node: WidgetNode<K>) -> Seq<DrawOp> {
    match node.state.background {
        Some(image) => seq![
            DrawOp::Background {
                image,
                state: node.state.animation_state,
                position: node.state.position,
                size: node.state.size,
            },
        ],
        None => Seq::empty(),
    }
}

/// What node `i` and its subtree draw: background, then the node's own
/// drawing, then each child's subtree in order.
pub open spec fn draw_node<K: WidgetKind>(t: Seq<WidgetNode<K>>, i: int, n: int) -> Seq<DrawOp>
    decreases n - i, 1int, 0int,
{
    if !(0 <= i < n) || i >= t.len() {
        Seq::empty()
    } else {
        background_ops(t[i]) + t[i].kind.draw_ops(t[i].state.geometry()) + draw_children(
            t,
            i,
            t[i].children@,
            0,
            n,
        )
    }
}

pub open spec fn draw_children<K: WidgetKind>(
    t: Seq<WidgetNode<K>>,
    i: int,
    kids: Seq<usize>,
    k: int,
    n: int,
) -> Seq<DrawOp>
    decreases n - i, 0int, kids.len() - k,
{
    if !(0 <= k < kids.len()) || !(i < kids[k] < n) {
        Seq::empty()
    } else {
        draw_node(t, kids[k] as int, n) + draw_children(t, i, kids, k + 1, n)
    }
}

/// Where the parent of node `j` is linked in: its own parent `g` and the first
/// position `k` of it among `g`'s children. None when `j` has no parent, the
/// parent is the root, or the parent is not linked in.
pub open spec fn parent_link<K>(t: Seq<WidgetNode<K>>, j: int) -> Option<(int, int)> {
    if 0 <= j < t.len() && t[j].parent is Some {
        let p = t[j].parent->0;
        if p < t.len() && t[p as int].parent is Some {
            let g = t[p as int].parent->0;
            if g < t.len() && exists|k: int|
                0 <= k < t[g as int].children@.len() && t[g as int].children@[k] == p {
                let k = choose|k: int|
                    0 <= k < t[g as int].children@.len() && t[g as int].children@[k] == p
                        && forall|m: int| 0 <= m < k ==> t[g as int].children@[m] != p;
                Some((g as int, k))
            } else {
                None
            }
        } else {
            None
        }
    } else {
        None
    }
}

impl<K: WidgetKind> Widget<K> {
    pub open spec fn wf(&self) -> bool {
        nodes_wf(self.nodes@)
    }

    fn new(kind: Rc<K>, size: Size, position: Point, border: Border) -> (r: Widget<K>)
        ensures
            lone_widget(r, kind, size, position, border),
    {
        let state = WidgetState::new(size, position, border);
        let mut nodes: Vec<WidgetNode<K>> = Vec::new();
        nodes.push(WidgetNode { state, kind, children: Vec::new(), parent: None });
        Widget { nodes }
    }

    /// A widget with zero size, position and border.
    pub fn with_defaults(widget: Rc<K>) -> (r: Widget<K>)
        ensures
            lone_widget(
                r,
                widget,
                (Size { width: 0, height: 0 }),
                (Point { x: 0, y: 0 }),
                (Border { top: 0, bottom: 0, left: 0, right: 0 }),
            ),
    {
        Widget::new(widget, Size::as_zero(), Point::as_zero(), Border::as_zero())
    }

    pub fn with_size(widget: Rc<K>, size: Size) -> (r: Widget<K>)
        ensures
            lone_widget(
                r,
                widget,
                size,
                (Point { x: 0, y: 0 }),
                (Border { top: 0, bottom: 0, left: 0, right: 0 }),
            ),
    {
        Widget::new(widget, size, Point::as_zero(), Border::as_zero())
    }

    pub fn with_position(widget: Rc<K>, size: Size, position: Point) -> (r: Widget<K>)
        ensures
            lone_widget(r, widget, size, position, (Border { top: 0, bottom: 0, left: 0, right: 0 })),
    {
        Widget::new(widget, size, position, Border::as_zero())
    }

    pub fn with_border(widget: Rc<K>, size: Size, position: Point, border: Border) -> (r: Widget<K>)
        ensures
            lone_widget(r, widget, size, position, border),
    {
        Widget::new(widget, size, position, border)
    }

    /// Appends `widget`, with its subtree, as the last child of this widget.
    /// Layout is not run again.
    pub fn add_child(&mut self, widget: Widget<K>)
        requires
            old(self).wf(),
            widget.wf(),
            old(self).nodes@.len() + widget.nodes@.len() <= usize::MAX,
        ensures
            final(self).wf(),
            final(self).nodes@.len() == old(self).nodes@.len() + widget.nodes@.len(),
            final(self).nodes@[0].children@ == old(self).nodes@[0].children@.push(
                old(self).nodes@.len() as usize,
            ),
            final(self).nodes@[0].state == old(self).nodes@[0].state,
            final(self).nodes@[0].kind == old(self).nodes@[0].kind,
            final(self).nodes@[0].parent == old(self).nodes@[0].parent,
            forall|j: int| 0 < j < old(self).nodes@.len() ==> final(self).nodes@[j] == old(self).nodes@[j],
            forall|j: int|
                0 <= j < widget.nodes@.len() ==> #[trigger] moved(
                    widget.nodes@[j],
                    final(self).nodes@[old(self).nodes@.len() + j],
                    old(self).nodes@.len() as int,
                ),
    {
        let ghost orig = self.nodes@;
        let offset = self.nodes.len();
        self.nodes[0].children.push(offset);
        let ghost t0 = self.nodes@;
        assert(forall|m: int| 0 < m < offset ==> t0[m] == orig[m]);
        let ghost src = widget.nodes@;
        let mut rest = widget.nodes;
        let mut j: usize = 0;
        while rest.len() > 0
            invariant
                offset == t0.len(),
                offset + src.len() <= usize::MAX,
                nodes_wf(src),
                j <= src.len(),
                rest@ == src.subrange(j as int, src.len() as int),
                self.nodes@.len() == offset + j,
                forall|m: int| 0 <= m < offset ==> self.nodes@[m] == t0[m],
                forall|m: int| 0 <= m < j ==> #[trigger] moved(src[m], self.nodes@[offset + m], offset as int),
            decreases rest@.len(),
        {
            let node = rest.remove(0);
            assert(node == src[j as int]);
            let ghost old_kids = node.children@;
            let mut kids: Vec<usize> = Vec::new();
            let mut k: usize = 0;
            while k < node.children.len()
                invariant
                    old_kids == node.children@,
                    node == src[j as int],
                    nodes_wf(src),
                    j < src.len(),
                    offset + src.len() <= usize::MAX,
                    k <= old_kids.len(),
                    kids@.len() == k,
                    forall|m: int| 0 <= m < k ==> kids@[m] == old_kids[m] + offset,
                decreases old_kids.len() - k,
            {
                assert(old_kids[k as int] < src.len());
                kids.push(node.children[k] + offset);
                k = k + 1;
            }
            let parent = match node.parent {
                Some(p) => Some(p + offset),
                None => Some(0),
            };
            self.nodes.push(WidgetNode { state: node.state, kind: node.kind, children: kids, parent });
            j = j + 1;
        }
        assert(j == src.len());
        proof {
            let t = self.nodes@;
            assert forall|i: int, k: int|
                0 <= i < t.len() && 0 <= k < t[i].children@.len() implies i < #[trigger] t[i].children@[k]
                    < t.len() by {
                if i >= offset {
                    let m = i - offset;
                    assert(moved(src[m], t[offset + m], offset as int));
                    assert(m < src[m].children@[k] < src.len());
                } else if i == 0 {
                    if k < orig[0].children@.len() {
                        assert(0 < orig[0].children@[k] < orig.len());
                    }
                } else {
                    assert(t[i] == orig[i]);
                    assert(i < orig[i].children@[k] < orig.len());
                }
            }
            assert forall|i: int| 0 < i < t.len() implies (#[trigger] t[i].parent matches Some(p) && p < i) by {
                if i >= offset {
                    let m = i - offset;
                    assert(moved(src[m], t[offset + m], offset as int));
                    if m > 0 {
                        assert(src[m].parent matches Some(p) && p < m);
                    }
                } else {
                    assert(t[i] == orig[i]);
                    assert(orig[i].parent matches Some(p) && p < i);
                }
            }
        }
    }

    /// Lays the tree out top-down from `origin`, the corner of the area the
    /// root stands in.
    pub fn layout(&mut self, origin: Point)
        requires
            old(self).wf(),
        ensures
            final(self).wf(),
            final(self).nodes@ == laid_out(old(self).nodes@, origin),
    {
        let ghost t0 = self.nodes@;
        let n = self.nodes.len();
        let mut j: usize = 0;
        while j < n
            invariant
                n == t0.len(),
                nodes_wf(t0),
                j <= n,
                self.nodes@ == laid_out_prefix(t0, j as nat, origin),
                self.nodes@.len() == n,
                forall|m: int| 0 <= m < n ==> (#[trigger] self.nodes@[m]).children == t0[m].children
                    && self.nodes@[m].parent == t0[m].parent,
            decreases n - j,
        {
            let base = match self.nodes[j].parent {
                Some(p) => {
                    if p < j {
                        let st = &self.nodes[p].state;
                        Point {
                            x: st.position.x.saturating_add(st.border.left),
                            y: st.position.y.saturating_add(st.border.top),
                        }
                    } else {
                        origin
                    }
                },
                None => origin,
            };
            let st = &self.nodes[j].state;
            let g = Geometry { size: st.size, position: st.position, border: st.border };
            let g2 = self.nodes[j].kind.layout(g, st.theme, base);
            self.nodes[j].state.size = g2.size;
            self.nodes[j].state.position = g2.position;
            self.nodes[j].state.border = g2.border;
            j = j + 1;
        }
    }

    /// Hands the tree to the rendering sink: each node's background, then its
    /// own drawing, then its children in order. Nothing in the tree changes.
    pub fn draw_text_mode(&self, renderer: &mut Vec<DrawOp>)
        requires
            self.wf(),
        ensures
            final(renderer)@ == old(renderer)@ + draw_node(self.nodes@, 0, self.nodes@.len() as int),
    {
        let ghost n = self.nodes@.len() as int;
        self.draw_at(0, renderer, Ghost(n));
    }

    fn draw_at(&self, i: usize, out: &mut Vec<DrawOp>, Ghost(n): Ghost<int>)
        requires
            self.wf(),
            n == self.nodes@.len(),
            i < n,
        ensures
            final(out)@ == old(out)@ + draw_node(self.nodes@, i as int, n),
        decreases n - i, 1int,
    {
        let node = &self.nodes[i];
        let ghost start = out@;
        if let Some(image) = node.state.background {
            out.push(
                DrawOp::Background {
                    image,
                    state: node.state.animation_state,
                    position: node.state.position,
                    size: node.state.size,
                },
            );
        }
        assert(out@ =~= start + background_ops(self.nodes@[i as int]));
        let g = Geometry { size: node.state.size, position: node.state.position, border: node.state.border };
        node.kind.draw_text_mode(g, out);
        let ghost mid = out@;
        self.draw_children_at(i, 0, out, Ghost(n));
        assert(out@ =~= start + draw_node(self.nodes@, i as int, n));
    }

    fn draw_children_at(&self, i: usize, k: usize, out: &mut Vec<DrawOp>, Ghost(n): Ghost<int>)
        requires
            self.wf(),
            n == self.nodes@.len(),
            i < n,
            k <= self.nodes@[i as int].children@.len(),
        ensures
            final(out)@ == old(out)@ + draw_children(
                self.nodes@,
                i as int,
                self.nodes@[i as int].children@,
                k as int,
                n,
            ),
        decreases n - i, 0int, self.nodes@[i as int].children@.len() - k,
    {
        if k >= self.nodes[i].children.len() {
            assert(old(out)@ + Seq::<DrawOp>::empty() =~= old(out)@);
            return ;
        }
        let c = self.nodes[i].children[k];
        let ghost start = out@;
        self.draw_at(c, out, Ghost(n));
        self.draw_children_at(i, k + 1, out, Ghost(n));
        assert(out@ =~= start + draw_children(
            self.nodes@,
            i as int,
            self.nodes@[i as int].children@,
            k as int,
            n,
        ));
    }

    /// What the remove-parent callback of node `j` does: the parent of `j`,
    /// with its subtree, is unlinked from its own parent, so that nothing
    /// reaches it any more. The nodes stay in the arena as unreachable entries.
    pub fn remove_parent(&mut self, j: usize)
        requires
            old(self).wf(),
        ensures
            final(self).wf(),
            final(self).nodes@.len() == old(self).nodes@.len(),
            match parent_link(old(self).nodes@, j as int) {
                Some((g, k)) => {
                    &&& final(self).nodes@[g].children@ == old(self).nodes@[g].children@.remove(k)
                    &&& final(self).nodes@[g].state == old(self).nodes@[g].state
                    &&& final(self).nodes@[g].kind == old(self).nodes@[g].kind
                    &&& final(self).nodes@[g].parent == old(self).nodes@[g].parent
                    &&& forall|m: int|
                        0 <= m < old(self).nodes@.len() && m != g ==> final(self).nodes@[m]
                            == old(self).nodes@[m]
                },
                None => final(self).nodes@ == old(self).nodes@,
            },
    {
        let ghost t = self.nodes@;
        if j >= self.nodes.len() {
            return ;
        }
        let p = match self.nodes[j].parent {
            Some(p) => p,
            None => return ,
        };
        if p >= self.nodes.len() {
            return ;
        }
        let g = match self.nodes[p].parent {
            Some(g) => g,
            None => return ,
        };
        if g >= self.nodes.len() {
            return ;
        }
        let mut k: usize = 0;
        while k < self.nodes[g].children.len()
            invariant
                self.nodes@ == t,
                t == old(self).nodes@,
                nodes_wf(t),
                j < t.len(),
                t[j as int].parent == Some(p),
                p < t.len(),
                t[p as int].parent == Some(g),
                g < t.len(),
                k <= t[g as int].children@.len(),
                forall|m: int| 0 <= m < k ==> t[g as int].children@[m] != p,
            decreases t[g as int].children@.len() - k,
        {
            if self.nodes[g].children[k] == p {
                proof {
                    let c = choose|c: int|
                        0 <= c < t[g as int].children@.len() && t[g as int].children@[c] == p
                            && forall|m: int| 0 <= m < c ==> t[g as int].children@[m] != p;
                    assert(0 <= k < t[g as int].children@.len() && t[g as int].children@[k as int]
                        == p);
                    assert(c == k);
                    assert(parent_link(t, j as int) == Some((g as int, k as int)));
                }
                self.nodes[g].children.remove(k);
                proof {
                    let f = self.nodes@;
                    assert(f.len() == t.len());
                    assert(f[g as int].children@ == t[g as int].children@.remove(k as int));
                    assert(forall|i: int| 0 <= i < f.len() && i != g ==> f[i] == t[i]);
                    assert(f[g as int].parent == t[g as int].parent);
                    assert forall|i: int, m: int|
                        0 <= i < f.len() && 0 <= m < f[i].children@.len() implies i
                        < #[trigger] f[i].children@[m] < f.len() by {
                        if i == g {
                            assert(nodes_wf(t));
                            assert(f[i].children@.len() + 1 == t[i].children@.len());
                            if m < k {
                                assert(f[i].children@[m] == t[i].children@[m]);
                                assert(i < t[i].children@[m] < t.len());
                            } else {
                                assert(f[i].children@[m] == t[i].children@[m + 1]);
                                assert(i < t[i].children@[m + 1] < t.len());
                            }
                        } else {
                            assert(i < t[i].children@[m] < t.len());
                        }
                    }
                    assert forall|i: int| 0 < i < f.len() implies (#[trigger] f[i].parent matches Some(
                        q,
                    ) && q < i) by {
                        assert(f[i].parent == t[i].parent);
                        assert(t[i].parent matches Some(q) && q < i);
                    }
                }
                return ;
            }
            k = k + 1;
        }
    }

    /// Hands `event` to this widget's tree; true when some node handled it.
    pub fn dispatch_event(&mut self, event: Event) -> (r: bool)
        requires
            old(self).wf(),
        ensures
            final(self).wf(),
            (final(self).nodes@, r) == dispatch_node(
                old(self).nodes@,
                0,
                event,
                old(self).nodes@.len() as int,
            ),
    {
        let ghost n = self.nodes@.len() as int;
        self.dispatch_at(0, event, Ghost(n))
    }

    fn dispatch_at(&mut self, i: usize, event: Event, Ghost(n): Ghost<int>) -> (r: bool)
        requires
            old(self).wf(),
            n == old(self).nodes@.len(),
            i < n,
        ensures
            final(self).wf(),
            same_shape(old(self).nodes@, final(self).nodes@),
            (final(self).nodes@, r) == dispatch_node(old(self).nodes@, i as int, event, n),
        decreases n - i, 1int,
    {
        let ghost t0 = self.nodes@;
        let ghost kids = self.nodes@[i as int].children@;
        let handled = self.dispatch_children_at(i, 0, event, Ghost(n), Ghost(kids));
        if handled {
            return true;
        }
        let kind = &self.nodes[i].kind;
        let mouse = event.mouse;
        match event.kind {
            EventKind::MouseClick(c) => kind.on_mouse_click(c, mouse),
            EventKind::MouseMove { dx, dy } => kind.on_mouse_move(dx, dy, mouse),
            EventKind::MouseEnter => kind.on_mouse_enter(mouse),
            EventKind::MouseExit => kind.on_mouse_exit(mouse),
            EventKind::MouseScroll { scroll } => kind.on_mouse_scroll(scroll, mouse),
            EventKind::KeyPress(action) => kind.on_key_press(action, mouse),
        }
    }

    fn dispatch_children_at(
        &mut self,
        i: usize,
        k: usize,
        event: Event,
        Ghost(n): Ghost<int>,
        Ghost(kids): Ghost<Seq<usize>>,
    ) -> (r: bool)
        requires
            old(self).wf(),
            n == old(self).nodes@.len(),
            i < n,
            kids == old(self).nodes@[i as int].children@,
            k <= kids.len(),
        ensures
            final(self).wf(),
            same_shape(old(self).nodes@, final(self).nodes@),
            (final(self).nodes@, r) == dispatch_children(
                old(self).nodes@,
                i as int,
                kids,
                k as int,
                event,
                n,
            ),
        decreases n - i, 0int, kids.len() - k,
    {
        if k >= self.nodes[i].children.len() {
            return false;
        }
        let c = self.nodes[i].children[k];
        if self.visit_at(c, event, Ghost(n)) {
            return true;
        }
        self.dispatch_children_at(i, k + 1, event, Ghost(n), Ghost(kids))
    }

    fn visit_at(&mut self, c: usize, event: Event, Ghost(n): Ghost<int>) -> (r: bool)
        requires
            old(self).wf(),
            n == old(self).nodes@.len(),
            c < n,
        ensures
            final(self).wf(),
            same_shape(old(self).nodes@, final(self).nodes@),
            (final(self).nodes@, r) == visit_child(old(self).nodes@, c as int, event, n),
        decreases n - c, 2int,
    {
        let inside = self.nodes[c].state.in_bounds(event.mouse);
        if inside && !self.nodes[c].state.mouse_is_inside {
            self.dispatch_at(c, Event::entered_from(&event), Ghost(n));
            self.nodes[c].state.mouse_is_inside = true;
        } else if !inside && self.nodes[c].state.mouse_is_inside {
            self.dispatch_at(c, Event::exited_from(&event), Ghost(n));
            self.nodes[c].state.mouse_is_inside = false;
        }
        if inside {
            self.dispatch_at(c, event, Ghost(n))
        } else {
            false
        }
    }
}

proof fn lemma_layout_frame<K: WidgetKind>(t: Seq<WidgetNode<K>>, k: nat, m: nat, origin: Point)
    requires
        k <= m <= t.len(),
    ensures
        laid_out_prefix(t, m, origin).len() == t.len(),
        forall|j: int|
            0 <= j < k ==> laid_out_prefix(t, m, origin)[j] == laid_out_prefix(t, k, origin)[j],
        forall|j: int| m <= j < t.len() ==> laid_out_prefix(t, m, origin)[j] == t[j],
    decreases m,
{
    if m > 0 {
        if k < m {
            lemma_layout_frame(t, k, (m - 1) as nat, origin);
        }
        lemma_layout_frame(t, (m - 1) as nat, (m - 1) as nat, origin);
    }
}

proof fn lemma_laid_out_is_fixed<K: WidgetKind>(t: Seq<WidgetNode<K>>, k: nat, origin: Point)
    requires
        k <= t.len(),
    ensures
        laid_out_prefix(laid_out(t, origin), k, origin) == laid_out(t, origin),
    decreases k,
{
    let a = laid_out(t, origin);
    let n = t.len();
    lemma_layout_frame(t, n, n, origin);
    if k > 0 {
        let j = k - 1;
        lemma_laid_out_is_fixed(t, (k - 1) as nat, origin);
        lemma_layout_frame(t, k, n, origin);
        lemma_layout_frame(t, (k - 1) as nat, n, origin);
        lemma_layout_frame(t, (k - 1) as nat, (k - 1) as nat, origin);
        let before = laid_out_prefix(t, (k - 1) as nat, origin);
        assert(a[j] == relayout(before, j, origin));
        assert(origin_for(a, j, origin) == origin_for(before, j, origin));
        let node = before[j];
        node.kind.lemma_layout_idempotent(
            node.state.geometry(),
            node.state.theme,
            origin_for(before, j, origin),
        );
        assert(relayout(a, j, origin) == a[j]);
        assert(laid_out_prefix(a, k, origin) =~= a);
    }
}

/// Layout is idempotent: a second pass from the same origin over a tree that
/// was just laid out leaves every node as it is.
pub proof fn lemma_layout_idempotent<K: WidgetKind>(t: Seq<WidgetNode<K>>, origin: Point)
    ensures
        laid_out(laid_out(t, origin), origin) == laid_out(t, origin),
{
    lemma_layout_frame(t, t.len(), t.len(), origin);
    lemma_laid_out_is_fixed(t, t.len(), origin);
}

/// First match wins among siblings: when the children's run from position
/// `m`, cut after position `k`, ends with the event handled, the siblings after
/// `k` play no part; the outcome is the same as if they were absent.
pub proof fn lemma_first_match_wins<K: WidgetKind>(
    t: Seq<WidgetNode<K>>,
    i: int,
    kids: Seq<usize>,
    k: int,
    m: int,
    e: Event,
    n: int,
)
    requires
        0 <= k < kids.len(),
        0 <= m,
        dispatch_children(t, i, kids.take(k + 1), m, e, n).1,
    ensures
        dispatch_children(t, i, kids, m, e, n) == dispatch_children(t, i, kids.take(k + 1), m, e, n),
    decreases kids.len() - m,
{
    let head = kids.take(k + 1);
    if m <= k {
        assert(head[m] == kids[m]);
        if 0 <= i < n && i < kids[m] < n {
            let (t1, handled) = visit_child(t, kids[m] as int, e, n);
            if !handled {
                lemma_first_match_wins(t1, i, kids, k, m + 1, e, n);
            }
        }
    }
}

/// First match wins at a node: when its children's run, cut after position
/// `k`, ends with the event handled, the node reports the event handled, its
/// own handler is not consulted, and the children after `k` play no part.
pub proof fn lemma_handled_child_decides<K: WidgetKind>(
    t: Seq<WidgetNode<K>>,
    i: int,
    k: int,
    e: Event,
    n: int,
)
    requires
        0 <= i < n,
        0 <= k < t[i].children@.len(),
        dispatch_children(t, i, t[i].children@.take(k + 1), 0, e, n).1,
    ensures
        dispatch_node(t, i, e, n) == (
            dispatch_children(t, i, t[i].children@.take(k + 1), 0, e, n).0,
            true,
        ),
{
    lemma_first_match_wins(t, i, t[i].children@, k, 0, e, n);
}

proof fn lemma_dispatch_node_frame<K: WidgetKind>(t: Seq<WidgetNode<K>>, i: int, e: Event, n: int)
    ensures
        dispatch_node(t, i, e, n).0.len() == t.len(),
        forall|j: int| 0 <= j <= i && j < t.len() ==> dispatch_node(t, i, e, n).0[j] == t[j],
    decreases n - i, 1int, 0int,
{
    if 0 <= i < n {
        lemma_dispatch_children_frame(t, i, t[i].children@, 0, e, n);
    }
}

proof fn lemma_visit_frame<K: WidgetKind>(t: Seq<WidgetNode<K>>, c: int, e: Event, n: int)
    ensures
        visit_child(t, c, e, n).0.len() == t.len(),
        forall|j: int| 0 <= j < c && j < t.len() ==> visit_child(t, c, e, n).0[j] == t[j],
        0 <= c < n && c < t.len() ==> visit_child(t, c, e, n).0[c].state.mouse_is_inside
            == contains(t[c].state.position, t[c].state.size, e.mouse),
    decreases n - c, 2int, 0int,
{
    if 0 <= c < n && c < t.len() {
        let inside = contains(t[c].state.position, t[c].state.size, e.mouse);
        let t1 = match presence_notice(t[c].state.mouse_is_inside, inside) {
            Some(kind) => {
                lemma_dispatch_node_frame(t, c, Event { kind, mouse: e.mouse }, n);
                set_inside(dispatch_node(t, c, Event { kind, mouse: e.mouse }, n).0, c, inside)
            },
            None => t,
        };
        assert(t1.len() == t.len());
        assert(forall|j: int| 0 <= j < c ==> t1[j] == t[j]);
        assert(t1[c].state.mouse_is_inside == inside);
        assert(t1[c].state.position == t[c].state.position);
        assert(t1[c].state.size == t[c].state.size);
        if inside {
            lemma_dispatch_node_frame(t1, c, e, n);
            assert(visit_child(t, c, e, n) == dispatch_node(t1, c, e, n));
        } else {
            assert(visit_child(t, c, e, n) == (t1, false));
        }
    }
}

proof fn lemma_dispatch_children_frame<K: WidgetKind>(
    t: Seq<WidgetNode<K>>,
    i: int,
    kids: Seq<usize>,
    k: int,
    e: Event,
    n: int,
)
    ensures
        dispatch_children(t, i, kids, k, e, n).0.len() == t.len(),
        forall|j: int|
            0 <= j <= i && j < t.len() ==> dispatch_children(t, i, kids, k, e, n).0[j] == t[j],
    decreases n - i, 0int, kids.len() - k,
{
    if 0 <= k < kids.len() && 0 <= i < n && i < kids[k] < n {
        let c = kids[k] as int;
        lemma_visit_frame(t, c, e, n);
        let (t1, handled) = visit_child(t, c, e, n);
        if !handled {
            lemma_dispatch_children_frame(t1, i, kids, k + 1, e, n);
        }
    }
}

/// A visited child ends up recording whether the pointer is inside it,
/// whatever the event and whatever its subtree did with it.
pub proof fn lemma_visit_records_presence<K: WidgetKind>(
    t: Seq<WidgetNode<K>>,
    c: int,
    e: Event,
    n: int,
)
    requires
        0 <= c < n,
        c < t.len(),
    ensures
        visit_child(t, c, e, n).0[c].state.mouse_is_inside == contains(
            t[c].state.position,
            t[c].state.size,
            e.mouse,
        ),
{
    lemma_visit_frame(t, c, e, n);
}

/// The enter and exit events synthesized while node `i` takes `e`, in order,
/// each with the index of the node it is sent to.
pub open spec fn node_notices<K: WidgetKind>(t: Seq<WidgetNode<K>>, i: int, e: Event, n: int) -> Seq<
    (int, EventKind),
>
    decreases n - i, 1int, 0int,
{
    if !(0 <= i < n) {
        Seq::empty()
    } else {
        children_notices(t, i, t[i].children@, 0, e, n)
    }
}

/// The enter and exit events synthesized while child `c` is visited with `e`.
pub open spec fn visit_notices<K: WidgetKind>(t: Seq<WidgetNode<K>>, c: int, e: Event, n: int) -> Seq<
    (int, EventKind),
>
    decreases n - c, 2int, 0int,
{
    if !(0 <= c < n) || c >= t.len() {
        Seq::empty()
    } else {
        let inside = contains(t[c].state.position, t[c].state.size, e.mouse);
        match presence_notice(t[c].state.mouse_is_inside, inside) {
            Some(kind) => {
                let ev = Event { kind, mouse: e.mouse };
                let t1 = set_inside(dispatch_node(t, c, ev, n).0, c, inside);
                seq![(c, kind)] + node_notices(t, c, ev, n) + if inside {
                    node_notices(t1, c, e, n)
                } else {
                    Seq::empty()
                }
            },
            None => if inside {
                node_notices(t, c, e, n)
            } else {
                Seq::empty()
            },
        }
    }
}

/// The enter and exit events synthesized while children `kids[k..]` of node
/// `i` are visited with `e`.
pub open spec fn children_notices<K: WidgetKind>(
    t: Seq<WidgetNode<K>>,
    i: int,
    kids: Seq<usize>,
    k: int,
    e: Event,
    n: int,
) -> Seq<(int, EventKind)>
    decreases n - i, 0int, kids.len() - k,
{
    if !(0 <= k < kids.len()) || !(0 <= i < n) || !(i < kids[k] < n) {
        Seq::empty()
    } else {
        let (t1, handled) = visit_child(t, kids[k] as int, e, n);
        visit_notices(t, kids[k] as int, e, n) + if handled {
            Seq::empty()
        } else {
            children_notices(t1, i, kids, k + 1, e, n)
        }
    }
}

/// Enters minus exits sent to node `j` in `s`.
pub open spec fn notice_balance(s: Seq<(int, EventKind)>, j: int) -> int
    decreases s.len(),
{
    if s.len() == 0 {
        0
    } else {
        notice_balance(s.drop_last(), j) + if s.last().0 == j && s.last().1 == EventKind::MouseEnter {
            1int
        } else if s.last().0 == j && s.last().1 == EventKind::MouseExit {
            -1int
        } else {
            0int
        }
    }
}

pub open spec fn inside_flag<K>(t: Seq<WidgetNode<K>>, j: int) -> int {
    if t[j].state.mouse_is_inside {
        1
    } else {
        0
    }
}

/// The nodes after each event of `events` in turn has been dispatched at the root.
pub open spec fn dispatch_run<K: WidgetKind>(t: Seq<WidgetNode<K>>, events: Seq<Event>) -> Seq<
    WidgetNode<K>,
>
    decreases events.len(),
{
    if events.len() == 0 {
        t
    } else {
        dispatch_node(dispatch_run(t, events.drop_last()), 0, events.last(), t.len() as int).0
    }
}

/// The enter and exit events synthesized over that run, in order.
pub open spec fn run_notices<K: WidgetKind>(t: Seq<WidgetNode<K>>, events: Seq<Event>) -> Seq<
    (int, EventKind),
>
    decreases events.len(),
{
    if events.len() == 0 {
        Seq::empty()
    } else {
        run_notices(t, events.drop_last()) + node_notices(
            dispatch_run(t, events.drop_last()),
            0,
            events.last(),
            t.len() as int,
        )
    }
}

proof fn lemma_balance_concat(a: Seq<(int, EventKind)>, b: Seq<(int, EventKind)>, j: int)
    ensures
        notice_balance(a + b, j) == notice_balance(a, j) + notice_balance(b, j),
    decreases b.len(),
{
    if b.len() == 0 {
        assert(a + b =~= a);
    } else {
        lemma_balance_concat(a, b.drop_last(), j);
        assert((a + b).drop_last() =~= a + b.drop_last());
    }
}

proof fn lemma_node_notices_balance<K: WidgetKind>(t: Seq<WidgetNode<K>>, i: int, e: Event, n: int)
    ensures
        forall|j: int|
            0 <= j < t.len() ==> notice_balance(node_notices(t, i, e, n), j) == inside_flag(
                dispatch_node(t, i, e, n).0,
                j,
            ) - inside_flag(t, j),
    decreases n - i, 1int, 0int,
{
    lemma_dispatch_node_frame(t, i, e, n);
    if 0 <= i < n {
        lemma_children_notices_balance(t, i, t[i].children@, 0, e, n);
        assert(node_notices(t, i, e, n) == children_notices(t, i, t[i].children@, 0, e, n));
        assert(dispatch_node(t, i, e, n).0 == dispatch_children(t, i, t[i].children@, 0, e, n).0);
    } else {
        assert(node_notices(t, i, e, n) == Seq::<(int, EventKind)>::empty());
        assert(dispatch_node(t, i, e, n).0 == t);
    }
}

proof fn lemma_visit_notices_balance<K: WidgetKind>(t: Seq<WidgetNode<K>>, c: int, e: Event, n: int)
    ensures
        forall|j: int|
            0 <= j < t.len() ==> notice_balance(visit_notices(t, c, e, n), j) == inside_flag(
                visit_child(t, c, e, n).0,
                j,
            ) - inside_flag(t, j),
    decreases n - c, 2int, 0int,
{
    lemma_visit_frame(t, c, e, n);
    if 0 <= c < n && c < t.len() {
        let inside = contains(t[c].state.position, t[c].state.size, e.mouse);
        match presence_notice(t[c].state.mouse_is_inside, inside) {
            Some(kind) => {
                let ev = Event { kind, mouse: e.mouse };
                let t0 = dispatch_node(t, c, ev, n).0;
                let t1 = set_inside(t0, c, inside);
                lemma_dispatch_node_frame(t, c, ev, n);
                lemma_node_notices_balance(t, c, ev, n);
                let head = seq![(c, kind)];
                let n1 = node_notices(t, c, ev, n);
                let n2 = if inside {
                    node_notices(t1, c, e, n)
                } else {
                    Seq::empty()
                };
                if inside {
                    lemma_dispatch_node_frame(t1, c, e, n);
                    lemma_node_notices_balance(t1, c, e, n);
                }
                assert(visit_notices(t, c, e, n) == head + n1 + n2);
                let t2 = visit_child(t, c, e, n).0;
                if inside {
                    assert(t2 == dispatch_node(t1, c, e, n).0);
                    assert(t2[c] == t1[c]);
                } else {
                    assert(t2 == t1);
                    assert(n2 == Seq::<(int, EventKind)>::empty());
                }
                assert(t0[c] == t[c]);
                assert(t2[c].state.mouse_is_inside == inside);
                assert(head.drop_last() =~= Seq::<(int, EventKind)>::empty());
                assert forall|j: int| 0 <= j < t.len() implies notice_balance(
                    visit_notices(t, c, e, n),
                    j,
                ) == inside_flag(visit_child(t, c, e, n).0, j) - inside_flag(t, j) by {
                    lemma_balance_concat(head + n1, n2, j);
                    lemma_balance_concat(head, n1, j);
                    assert(notice_balance(head.drop_last(), j) == 0);
                    assert(head.last() == (c, kind));
                    if kind == EventKind::MouseEnter {
                        assert(inside && !t[c].state.mouse_is_inside);
                    } else {
                        assert(kind == EventKind::MouseExit);
                        assert(!inside && t[c].state.mouse_is_inside);
                    }
                    if j != c {
                        assert(t1[j] == t0[j]);
                        assert(notice_balance(head, j) == 0);
                    } else {
                        assert(notice_balance(n1, j) == 0);
                        assert(notice_balance(n2, j) == 0);
                    }
                    if !inside {
                        assert(notice_balance(n2, j) == 0);
                    }
                }
            },
            None => {
                if inside {
                    lemma_node_notices_balance(t, c, e, n);
                    assert(visit_notices(t, c, e, n) == node_notices(t, c, e, n));
                    assert(visit_child(t, c, e, n) == dispatch_node(t, c, e, n));
                } else {
                    assert(visit_notices(t, c, e, n) == Seq::<(int, EventKind)>::empty());
                    assert(visit_child(t, c, e, n).0 == t);
                }
            },
        }
    }
}

proof fn lemma_children_notices_balance<K: WidgetKind>(
    t: Seq<WidgetNode<K>>,
    i: int,
    kids: Seq<usize>,
    k: int,
    e: Event,
    n: int,
)
    ensures
        forall|j: int|
            0 <= j < t.len() ==> notice_balance(children_notices(t, i, kids, k, e, n), j)
                == inside_flag(dispatch_children(t, i, kids, k, e, n).0, j) - inside_flag(t, j),
    decreases n - i, 0int, kids.len() - k,
{
    if 0 <= k < kids.len() && 0 <= i < n && i < kids[k] < n {
        let c = kids[k] as int;
        lemma_visit_frame(t, c, e, n);
        lemma_visit_notices_balance(t, c, e, n);
        let (t1, handled) = visit_child(t, c, e, n);
        let v = visit_notices(t, c, e, n);
        let rest = if handled {
            Seq::empty()
        } else {
            children_notices(t1, i, kids, k + 1, e, n)
        };
        if !handled {
            lemma_children_notices_balance(t1, i, kids, k + 1, e, n);
        }
        assert forall|j: int| 0 <= j < t.len() implies notice_balance(
            children_notices(t, i, kids, k, e, n),
            j,
        ) == inside_flag(dispatch_children(t, i, kids, k, e, n).0, j) - inside_flag(t, j) by {
            lemma_balance_concat(v, rest, j);
            if handled {
                assert(notice_balance(rest, j) == 0);
            }
        }
    }
}

proof fn lemma_run_balance<K: WidgetKind>(t: Seq<WidgetNode<K>>, events: Seq<Event>)
    ensures
        dispatch_run(t, events).len() == t.len(),
        forall|j: int|
            0 <= j < t.len() ==> notice_balance(run_notices(t, events), j) == inside_flag(
                dispatch_run(t, events),
                j,
            ) - inside_flag(t, j),
    decreases events.len(),
{
    if events.len() > 0 {
        let before = events.drop_last();
        lemma_run_balance(t, before);
        let mid = dispatch_run(t, before);
        lemma_dispatch_node_frame(mid, 0, events.last(), t.len() as int);
        lemma_node_notices_balance(mid, 0, events.last(), t.len() as int);
        assert forall|j: int| 0 <= j < t.len() implies notice_balance(run_notices(t, events), j)
            == inside_flag(dispatch_run(t, events), j) - inside_flag(t, j) by {
            lemma_balance_concat(
                run_notices(t, before),
                node_notices(mid, 0, events.last(), t.len() as int),
                j,
            );
        }
    }
}

/// Enters and exits pair up: over any run of events dispatched at the root,
/// for a node the pointer was not inside at the start, the enter events
/// synthesized for it minus the exit events are 0 or 1 after every prefix of
/// the run, and 1 exactly when the node records the pointer inside.
pub proof fn lemma_enter_exit_pairing<K: WidgetKind>(
    t: Seq<WidgetNode<K>>,
    events: Seq<Event>,
    j: int,
)
    requires
        0 <= j < t.len(),
        !t[j].state.mouse_is_inside,
    ensures
        forall|m: int|
            0 <= m <= events.len() ==> {
                let b = #[trigger] notice_balance(run_notices(t, events.take(m)), j);
                &&& 0 <= b <= 1
                &&& (b == 1 <==> dispatch_run(t, events.take(m))[j].state.mouse_is_inside)
            },
{
    assert forall|m: int| 0 <= m <= events.len() implies {
        let b = #[trigger] notice_balance(run_notices(t, events.take(m)), j);
        &&& 0 <= b <= 1
        &&& (b == 1 <==> dispatch_run(t, events.take(m))[j].state.mouse_is_inside)
    } by {
        lemma_run_balance(t, events.take(m));
    }
}

} // verus!
