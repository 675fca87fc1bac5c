//! The LCRS tiling tree: a node is either a window leaf or a split with a
//! direction, a ratio and two children. Splitting puts a new split node
//! between a window and its new sibling.

use vstd::prelude::*;
use crate::floatbits::{f32_clamp, f32_in_range, is_nan, clamp_bits, HALF_BITS, RATIO_MAX_BITS, RATIO_MIN_BITS};
use crate::tiling::{call_side, fits, side_fn_ok, side_of, spec_split_at, spec_split_total, split_fits, split_rect_at, split_total};
use crate::wm::{Rect, WindowId};

verus! {

/// Split axis.
#[derive(Debug, Clone, Copy, PartialEq, Eq, Structural)]
pub enum Direction {
    /// Children side by side; the ratio is the left share.
    Horizontal,
    /// Children stacked; the ratio is the top share.
    Vertical,
}

impl Default for Direction {
    fn default() -> (r: Self)
        ensures
            r == Direction::Horizontal,
    {
        Direction::Horizontal
    }
}

/// Stable id of a split node within one workspace tree.
#[derive(Debug, Clone, Copy, PartialEq, Eq, Hash, Structural)]
pub struct SplitNodeId(pub u64);

impl SplitNodeId {
    /// The "no split" id.
    pub fn none() -> (r: SplitNodeId)
        ensures
            r == SplitNodeId(0),
    {
        SplitNodeId(0)
    }
}

/// A draggable divider between two tiles.
#[derive(Debug, Clone, Copy, PartialEq, Eq, Structural)]
pub struct SplitBar {
    /// The split node that owns the bar.
    pub split_node_id: SplitNodeId,
    /// Where the bar is drawn.
    pub rect: Rect,
    /// The drag axis (a horizontal split has a vertical bar).
    pub axis: Direction,
}

/// The thickness of a divider, in pixels.
pub const DIVIDER_THICKNESS: i32 = 8;

/// A window leaf.
#[derive(Debug)]
pub struct WindowNode {
    pub id: WindowId,
    pub transient_for: Option<WindowId>,
    pub previous_rect: Option<Rect>,
}

impl Clone for WindowNode {
    fn clone(&self) -> (r: Self)
        ensures
            r == *self,
    {
        WindowNode { id: self.id, transient_for: self.transient_for, previous_rect: self.previous_rect }
    }
}

impl WindowNode {
    /// A leaf for `id` with no transient parent and no stored rect.
    pub fn new(id: WindowId) -> (r: WindowNode)
        ensures
            r == (WindowNode { id, transient_for: None, previous_rect: None }),
    {
        WindowNode { id, transient_for: None, previous_rect: None }
    }
}

/// A split: direction, ratio and two children. The ratio is an `f32`
/// carried as its bit pattern; `0.5` splits evenly.
#[derive(Debug)]
pub struct SplitNode {
    pub id: SplitNodeId,
    pub direction: Direction,
    pub ratio_bits: u32,
    pub left: Box<TreeNode>,
    pub right: Box<TreeNode>,
}

/// One branch of the tree.
#[derive(Debug)]
pub enum TreeNode {
    /// An internal node.
    Split(SplitNode),
    /// A leaf holding a window.
    Window(WindowNode),
}

impl TreeNode {
    /// A copy of the tree.
    pub fn duplicate(&self) -> (r: TreeNode)
        ensures
            r == *self,
        decreases self,
    {
        match self {
            TreeNode::Window(w) => TreeNode::Window(w.clone()),
            TreeNode::Split(s) => {
                let l = s.left.duplicate();
                let r = s.right.duplicate();
                TreeNode::Split(SplitNode {
                    id: s.id,
                    direction: s.direction,
                    ratio_bits: s.ratio_bits,
                    left: Box::new(l),
                    right: Box::new(r),
                })
            },
        }
    }
}

impl Clone for TreeNode {
    fn clone(&self) -> (r: Self)
        ensures
            r == *self,
    {
        self.duplicate()
    }
}

/// The window ids of the leaves, depth first, left before right.
pub open spec fn leaves(node: TreeNode) -> Seq<WindowId>
    decreases node,
{
    match node {
        TreeNode::Window(w) => seq![w.id],
        TreeNode::Split(s) => leaves(*s.left) + leaves(*s.right),
    }
}

/// Replace the first leaf (depth first) whose id is `old` by `new`;
/// the flag says whether a leaf was replaced.
pub open spec fn replace_first(node: TreeNode, old: WindowId, new: WindowNode) -> (TreeNode, bool)
    decreases node,
{
    match node {
        TreeNode::Window(w) => if w.id == old {
            (TreeNode::Window(new), true)
        } else {
            (node, false)
        },
        TreeNode::Split(s) => {
            let (l, hit) = replace_first(*s.left, old, new);
            if hit {
                (TreeNode::Split(SplitNode { left: Box::new(l), ..s }), true)
            } else {
                let (r, hit2) = replace_first(*s.right, old, new);
                (TreeNode::Split(SplitNode { right: Box::new(r), ..s }), hit2)
            }
        },
    }
}

/// A replacement that found nothing leaves the tree unchanged.
pub proof fn lemma_replace_miss(node: TreeNode, target: WindowId, new: WindowNode)
    ensures
        !replace_first(node, target, new).1 ==> replace_first(node, target, new).0 == node,
    decreases node,
{
    if let TreeNode::Split(s) = node {
        lemma_replace_miss(*s.left, target, new);
        lemma_replace_miss(*s.right, target, new);
    }
}

impl TreeNode {
    /// Replace the first leaf (depth first) holding `old`; `true` if one
    /// was replaced.
    pub fn replace_window(&mut self, target: WindowId, new: WindowNode) -> (r: bool)
        ensures
            (*final(self), r) == replace_first(*old(self), target, new),
        decreases *old(self),
    {
        let is_leaf = match self {
            TreeNode::Window(_) => true,
            TreeNode::Split(_) => false,
        };
        if is_leaf {
            let is_hit = match self {
                TreeNode::Window(w) => w.id == target,
                TreeNode::Split(_) => false,
            };
            if is_hit {
                *self = TreeNode::Window(new);
            }
            return is_hit;
        }
        match self {
            TreeNode::Window(_) => false,
            TreeNode::Split(s) => {
                proof {
                    lemma_replace_miss(*s.left, target, new);
                }
                if s.left.replace_window(target, new.clone()) {
                    true
                } else {
                    s.right.replace_window(target, new)
                }
            },
        }
    }

    /// `true` if a leaf holds `id`.
    pub fn contains(&self, id: WindowId) -> (r: bool)
        ensures
            r == leaves(*self).contains(id),
        decreases self,
    {
        match self {
            TreeNode::Window(w) => {
                assert(leaves(*self) =~= seq![w.id]);
                if w.id == id {
                    assert(leaves(*self)[0] == id);
                }
                w.id == id
            },
            TreeNode::Split(s) => {
                let l = s.left.contains(id);
                let r = s.right.contains(id);
                proof {
                    let a = leaves(*s.left);
                    let b = leaves(*s.right);
                    if l {
                        let i = choose|i: int| 0 <= i < a.len() && a[i] == id;
                        assert((a + b)[i] == id);
                    }
                    if r {
                        let i = choose|i: int| 0 <= i < b.len() && b[i] == id;
                        assert((a + b)[a.len() + i] == id);
                    }
                    if (a + b).contains(id) {
                        let i = choose|i: int| 0 <= i < (a + b).len() && (a + b)[i] == id;
                        if i < a.len() {
                            assert(a[i] == id);
                        } else {
                            assert(b[i - a.len()] == id);
                        }
                    }
                }
                l || r
            },
        }
    }

    fn visit(&self, out: &mut Vec<WindowId>)
        ensures
            final(out)@ == old(out)@ + leaves(*self),
        decreases self,
    {
        match self {
            TreeNode::Window(w) => {
                out.push(w.id);
            },
            TreeNode::Split(s) => {
                s.left.visit(out);
                s.right.visit(out);
                assert(out@ =~= old(out)@ + leaves(*self));
            },
        }
    }

    /// All leaf ids, depth first.
    pub fn collect_windows(&self) -> (r: Vec<WindowId>)
        ensures
            r@ == leaves(*self),
    {
        let mut out: Vec<WindowId> = Vec::new();
        self.visit(&mut out);
        assert(out@ =~= leaves(*self));
        out
    }

    /// Number of leaves.
    pub fn leaf_count(&self) -> (r: usize)
        requires
            leaves(*self).len() <= usize::MAX,
        ensures
            r == leaves(*self).len(),
        decreases self,
    {
        match self {
            TreeNode::Window(_) => 1,
            TreeNode::Split(s) => s.left.leaf_count() + s.right.leaf_count(),
        }
    }
}

/// The divider a split draws along the shared edge of its children.
pub open spec fn spec_divider(id: SplitNodeId, direction: Direction, rect: Rect, first: Rect) -> SplitBar {
    match direction {
        Direction::Horizontal => SplitBar {
            split_node_id: id,
            rect: Rect { x: first.spec_right() as i32, y: rect.y, width: DIVIDER_THICKNESS, height: rect.height },
            axis: Direction::Vertical,
        },
        Direction::Vertical => SplitBar {
            split_node_id: id,
            rect: Rect { x: rect.x, y: first.spec_bottom() as i32, width: rect.width, height: DIVIDER_THICKNESS },
            axis: Direction::Horizontal,
        },
    }
}

/// The first side of a split of `rect`.
pub open spec fn first_side_of<F: Fn(i32, u32) -> i32>(s: SplitNode, rect: Rect, gap: i32, f: F) -> i32 {
    side_of(f, spec_split_total(rect, s.direction, gap) as i32, s.ratio_bits)
}

/// The two child rects of a split of `rect`.
pub open spec fn children_of<F: Fn(i32, u32) -> i32>(s: SplitNode, rect: Rect, gap: i32, f: F) -> (Rect, Rect) {
    spec_split_at(rect, s.direction, first_side_of(s, rect, gap, f), gap)
}

/// The layout arithmetic below `node` fits in `i32` for the given rect.
pub open spec fn node_fits<F: Fn(i32, u32) -> i32>(node: TreeNode, rect: Rect, gap: i32, f: F) -> bool
    decreases node,
{
    match node {
        TreeNode::Window(_) => true,
        TreeNode::Split(s) => {
            let fs = first_side_of(s, rect, gap, f);
            let (l, r) = children_of(s, rect, gap, f);
            &&& fits(spec_split_total(rect, s.direction, gap))
            &&& split_fits(rect, s.direction, fs, gap)
            &&& match s.direction {
                Direction::Horizontal => fits(l.spec_right()),
                Direction::Vertical => fits(l.spec_bottom()),
            }
            &&& node_fits(*s.left, l, gap, f)
            &&& node_fits(*s.right, r, gap, f)
        },
    }
}

/// The leaf rects of a layout of `node` within `rect`.
pub open spec fn node_layout<F: Fn(i32, u32) -> i32>(node: TreeNode, rect: Rect, gap: i32, f: F) -> Seq<(WindowId, Rect)>
    decreases node,
{
    match node {
        TreeNode::Window(w) => seq![(w.id, rect)],
        TreeNode::Split(s) => {
            let (l, r) = children_of(s, rect, gap, f);
            node_layout(*s.left, l, gap, f) + node_layout(*s.right, r, gap, f)
        },
    }
}

/// The dividers of a layout of `node`: the left subtree's, the right
/// subtree's, then the split's own.
pub open spec fn node_bars<F: Fn(i32, u32) -> i32>(node: TreeNode, rect: Rect, gap: i32, f: F) -> Seq<SplitBar>
    decreases node,
{
    match node {
        TreeNode::Window(_) => Seq::empty(),
        TreeNode::Split(s) => {
            let (l, r) = children_of(s, rect, gap, f);
            node_bars(*s.left, l, gap, f) + node_bars(*s.right, r, gap, f) + seq![spec_divider(s.id, s.direction, rect, l)]
        },
    }
}

impl SplitNode {
    /// A split with an even ratio.
    pub fn new(id: SplitNodeId, direction: Direction, left: TreeNode, right: TreeNode) -> (r: SplitNode)
        ensures
            r == (SplitNode { id, direction, ratio_bits: HALF_BITS, left: Box::new(left), right: Box::new(right) }),
    {
        SplitNode { id, direction, ratio_bits: HALF_BITS, left: Box::new(left), right: Box::new(right) }
    }

    /// Allocate a rect to every leaf, depth first, and emit the dividers.
    pub fn layout<F: Fn(i32, u32) -> i32>(&self, rect: Rect, inner_gap: i32, side: &F) -> (r: (Vec<(WindowId, Rect)>, Vec<SplitBar>))
        requires
            side_fn_ok(*side),
            node_fits(TreeNode::Split(*self), rect, inner_gap, *side),
        ensures
            r.0@ == node_layout(TreeNode::Split(*self), rect, inner_gap, *side),
            r.1@ == node_bars(TreeNode::Split(*self), rect, inner_gap, *side),
        decreases self,
    {
        let total = split_total(rect, self.direction, inner_gap);
        let fs = call_side(side, total, self.ratio_bits);
        let (l, r) = split_rect_at(rect, self.direction, fs, inner_gap);
        let (mut out_l, bars_l) = match &*self.left {
            TreeNode::Window(w) => {
                let mut v: Vec<(WindowId, Rect)> = Vec::new();
                v.push((w.id, l));
                (v, Vec::new())
            },
            TreeNode::Split(s) => s.layout(l, inner_gap, side),
        };
        let (mut out_r, bars_r) = match &*self.right {
            TreeNode::Window(w) => {
                let mut v: Vec<(WindowId, Rect)> = Vec::new();
                v.push((w.id, r));
                (v, Vec::new())
            },
            TreeNode::Split(s) => s.layout(r, inner_gap, side),
        };
        out_l.append(&mut out_r);
        let divider = match self.direction {
            Direction::Horizontal => SplitBar {
                split_node_id: self.id,
                rect: Rect::new(l.right(), rect.y, DIVIDER_THICKNESS, rect.height),
                axis: Direction::Vertical,
            },
            Direction::Vertical => SplitBar {
                split_node_id: self.id,
                rect: Rect::new(rect.x, l.bottom(), rect.width, DIVIDER_THICKNESS),
                axis: Direction::Horizontal,
            },
        };
        let mut bars: Vec<SplitBar> = Vec::new();
        let mut bl = bars_l;
        let mut br = bars_r;
        bars.append(&mut bl);
        bars.append(&mut br);
        bars.push(divider);
        proof {
            let node = TreeNode::Split(*self);
            assert(fs == first_side_of(*self, rect, inner_gap, *side));
            assert((l, r) == children_of(*self, rect, inner_gap, *side));
            assert(out_l@ =~= node_layout(*self.left, l, inner_gap, *side) + node_layout(*self.right, r, inner_gap, *side));
            assert(divider == spec_divider(self.id, self.direction, rect, l));
            assert(bars@ =~= node_bars(*self.left, l, inner_gap, *side) + node_bars(*self.right, r, inner_gap, *side) + seq![divider]);
        }
        (out_l, bars)
    }

    /// Set the ratio, clamped to `0.05..=0.95` as `f32::clamp` does.
    pub fn set_ratio(&mut self, new_ratio_bits: u32)
        ensures
            final(self).ratio_bits == f32_clamp(new_ratio_bits, RATIO_MIN_BITS, RATIO_MAX_BITS),
            final(self).id == old(self).id,
            final(self).direction == old(self).direction,
            final(self).left == old(self).left,
            final(self).right == old(self).right,
    {
        self.ratio_bits = clamp_bits(new_ratio_bits, RATIO_MIN_BITS, RATIO_MAX_BITS);
    }

    /// The leaf ids of both children, depth first.
    pub fn windows(&self) -> (r: Vec<WindowId>)
        ensures
            r@ == leaves(*self.left) + leaves(*self.right),
    {
        let mut out = self.left.collect_windows();
        let mut rest = self.right.collect_windows();
        out.append(&mut rest);
        out
    }
}

/// A tree holding a single window.
pub fn leaf(id: WindowId) -> (r: TreeNode)
    ensures
        r == TreeNode::Window(WindowNode { id, transient_for: None, previous_rect: None }),
{
    TreeNode::Window(WindowNode::new(id))
}

/// The split `insert_next_to` builds.
pub open spec fn spec_pair(existing: WindowId, new: WindowId, direction: Direction, next_id: SplitNodeId) -> TreeNode {
    TreeNode::Split(SplitNode {
        id: next_id,
        direction,
        ratio_bits: HALF_BITS,
        left: Box::new(TreeNode::Window(WindowNode { id: existing, transient_for: None, previous_rect: None })),
        right: Box::new(TreeNode::Window(WindowNode { id: new, transient_for: None, previous_rect: None })),
    })
}

/// An even split with `existing` first and `new` second.
pub fn insert_next_to(existing: WindowId, new: WindowId, direction: Direction, next_id: SplitNodeId) -> (r: TreeNode)
    ensures
        r == spec_pair(existing, new, direction, next_id),
{
    TreeNode::Split(SplitNode::new(
        next_id,
        direction,
        TreeNode::Window(WindowNode::new(existing)),
        TreeNode::Window(WindowNode::new(new)),
    ))
}

/// Replace a leaf by a deeper tree; the same shape as `insert_next_to`.
pub fn replace_and_split(existing: WindowId, new: WindowId, direction: Direction, next_id: SplitNodeId) -> (r: TreeNode)
    ensures
        r == spec_pair(existing, new, direction, next_id),
{
    insert_next_to(existing, new, direction, next_id)
}

/// The tree once every leaf holding `removed` is gone; a split left with
/// one child is replaced by that child, and an empty tree is `None`.
pub open spec fn collapse(node: TreeNode, removed: WindowId) -> Option<TreeNode>
    decreases node,
{
    match node {
        TreeNode::Window(w) => if w.id == removed {
            None
        } else {
            Some(node)
        },
        TreeNode::Split(s) => {
            let l = collapse(*s.left, removed);
            let r = collapse(*s.right, removed);
            match (l, r) {
                (None, Some(r)) => Some(r),
                (Some(l), None) => Some(l),
                (Some(l), Some(r)) => Some(TreeNode::Split(SplitNode { left: Box::new(l), right: Box::new(r), ..s })),
                (None, None) => None,
            }
        },
    }
}

/// Remove every leaf holding `removed`, collapsing splits left with a
/// single child.
pub fn collapse_after_remove(node: TreeNode, removed: WindowId) -> (r: Option<TreeNode>)
    ensures
        r == collapse(node, removed),
    decreases node,
{
    match node {
        TreeNode::Window(w) => {
            if w.id == removed {
                None
            } else {
                Some(TreeNode::Window(w))
            }
        },
        TreeNode::Split(s) => {
            let SplitNode { id, direction, ratio_bits, left, right } = s;
            let l = collapse_after_remove(*left, removed);
            let r = collapse_after_remove(*right, removed);
            match (l, r) {
                (None, Some(r)) => Some(r),
                (Some(l), None) => Some(l),
                (Some(l), Some(r)) => Some(TreeNode::Split(SplitNode {
                    id,
                    direction,
                    ratio_bits,
                    left: Box::new(l),
                    right: Box::new(r),
                })),
                (None, None) => None,
            }
        },
    }
}

/// The tree after a divider drag: the topmost splits with id `target`
/// (those without a matching ancestor) get the clamped ratio.
pub open spec fn with_ratio(node: TreeNode, target: SplitNodeId, bits: u32) -> TreeNode
    decreases node,
{
    match node {
        TreeNode::Window(_) => node,
        TreeNode::Split(s) => if s.id == target {
            TreeNode::Split(SplitNode { ratio_bits: f32_clamp(bits, RATIO_MIN_BITS, RATIO_MAX_BITS), ..s })
        } else {
            TreeNode::Split(SplitNode {
                left: Box::new(with_ratio(*s.left, target, bits)),
                right: Box::new(with_ratio(*s.right, target, bits)),
                ..s
            })
        },
    }
}

/// Apply a divider drag to the tree below `node`.
pub fn apply_ratio(node: &mut TreeNode, target: SplitNodeId, ratio_bits: u32)
    ensures
        *final(node) == with_ratio(*old(node), target, ratio_bits),
    decreases *old(node),
{
    match node {
        TreeNode::Window(_) => {},
        TreeNode::Split(s) => {
            if s.id == target {
                s.set_ratio(ratio_bits);
                return;
            }
            apply_ratio(&mut s.left, target, ratio_bits);
            apply_ratio(&mut s.right, target, ratio_bits);
        },
    }
}

/// A tree always has at least one leaf.
pub proof fn lemma_leaves_nonempty(node: TreeNode)
    ensures
        leaves(node).len() > 0,
    decreases node,
{
    if let TreeNode::Split(s) = node {
        lemma_leaves_nonempty(*s.left);
    }
}

/// Removing a window the tree does not hold leaves the tree unchanged.
pub proof fn lemma_remove_absent(node: TreeNode, w: WindowId)
    requires
        !leaves(node).contains(w),
    ensures
        collapse(node, w) == Some(node),
    decreases node,
{
    match node {
        TreeNode::Window(n) => {
            assert(leaves(node)[0] == n.id);
        },
        TreeNode::Split(s) => {
            let a = leaves(*s.left);
            let b = leaves(*s.right);
            assert forall|i: int| 0 <= i < a.len() implies a[i] != w by {
                assert((a + b)[i] == a[i]);
            }
            assert forall|i: int| 0 <= i < b.len() implies b[i] != w by {
                assert((a + b)[a.len() + i] == b[i]);
            }
            lemma_remove_absent(*s.left, w);
            lemma_remove_absent(*s.right, w);
        },
    }
}

/// Removing a window keeps every other window, in order: the tree is gone
/// exactly when it held only that window, and otherwise its leaves are the
/// old leaves without it.
pub proof fn lemma_remove_keeps_others(node: TreeNode, w: WindowId)
    ensures
        collapse(node, w) is None <==> leaves(node).filter(|x: WindowId| x != w).len() == 0,
        collapse(node, w) matches Some(t) ==> leaves(t) == leaves(node).filter(|x: WindowId| x != w),
    decreases node,
{
    let p = |x: WindowId| x != w;
    reveal(Seq::filter);
    match node {
        TreeNode::Window(n) => {
            assert(leaves(node) =~= seq![n.id]);
            assert(seq![n.id].drop_last() =~= Seq::<WindowId>::empty());
            assert(Seq::<WindowId>::empty().filter(p) =~= Seq::<WindowId>::empty());
            assert(seq![n.id].filter(p) == Seq::<WindowId>::empty().filter(p).push(n.id) || !p(n.id));
            if p(n.id) {
                assert(seq![n.id].filter(p) =~= seq![n.id]);
            } else {
                assert(seq![n.id].filter(p) =~= Seq::<WindowId>::empty());
            }
        },
        TreeNode::Split(s) => {
            lemma_remove_keeps_others(*s.left, w);
            lemma_remove_keeps_others(*s.right, w);
            let a = leaves(*s.left);
            let b = leaves(*s.right);
            Seq::filter_distributes_over_add(a, b, p);
            assert(leaves(node).filter(p) == a.filter(p) + b.filter(p));
        },
    }
}

/// Putting a window next to a lone window and removing it again gives the
/// lone window back.
pub proof fn lemma_insert_then_remove(existing: WindowId, new: WindowId, direction: Direction, next_id: SplitNodeId)
    requires
        existing != new,
    ensures
        collapse(spec_pair(existing, new, direction, next_id), new) == Some(
            TreeNode::Window(WindowNode { id: existing, transient_for: None, previous_rect: None }),
        ),
{
    let l = TreeNode::Window(WindowNode { id: existing, transient_for: None, previous_rect: None });
    let r = TreeNode::Window(WindowNode { id: new, transient_for: None, previous_rect: None });
    assert(collapse(l, new) == Some(l));
    assert(collapse(r, new) is None);
}

/// A dragged ratio that is a number ends up in `0.05..=0.95`; a NaN is
/// kept as it is.
pub proof fn lemma_drag_ratio_in_range(bits: u32)
    ensures
        !is_nan(bits) ==> f32_in_range(f32_clamp(bits, RATIO_MIN_BITS, RATIO_MAX_BITS), RATIO_MIN_BITS, RATIO_MAX_BITS),
        is_nan(bits) ==> f32_clamp(bits, RATIO_MIN_BITS, RATIO_MAX_BITS) == bits,
{
    assert(!is_nan(RATIO_MIN_BITS)) by (bit_vector);
    assert(!is_nan(RATIO_MAX_BITS)) by (bit_vector);
    assert((RATIO_MIN_BITS & 0x8000_0000u32) == 0u32) by (bit_vector);
    assert((RATIO_MAX_BITS & 0x8000_0000u32) == 0u32) by (bit_vector);
}

/// Every split with id `target` that has no ancestor with that id carries
/// ratio `r`, in either subtree.
pub open spec fn topmost_ratio(t: TreeNode, target: SplitNodeId, r: u32) -> bool
    decreases t,
{
    match t {
        TreeNode::Window(_) => true,
        TreeNode::Split(s) => if s.id == target {
            s.ratio_bits == r
        } else {
            topmost_ratio(*s.left, target, r) && topmost_ratio(*s.right, target, r)
        },
    }
}

/// `u` is `t` except, at most, for the ratios of the splits with id
/// `target` that have no ancestor with that id: every leaf, every other
/// split and the shape of the tree are the same.
pub open spec fn same_but_target_ratios(t: TreeNode, u: TreeNode, target: SplitNodeId) -> bool
    decreases t,
{
    match t {
        TreeNode::Window(a) => u == TreeNode::Window(a),
        TreeNode::Split(a) => match u {
            TreeNode::Window(_) => false,
            TreeNode::Split(b) => {
                &&& a.id == b.id
                &&& a.direction == b.direction
                &&& if a.id == target {
                    *a.left == *b.left && *a.right == *b.right
                } else {
                    &&& a.ratio_bits == b.ratio_bits
                    &&& same_but_target_ratios(*a.left, *b.left, target)
                    &&& same_but_target_ratios(*a.right, *b.right, target)
                }
            },
        },
    }
}

/// A divider drag gives every topmost split with the dragged id the
/// clamped ratio, whether it lies in the left or the right subtree, and
/// leaves every other node and every leaf as it was.
pub proof fn lemma_drag_sets_topmost_ratios(t: TreeNode, target: SplitNodeId, bits: u32)
    ensures
        topmost_ratio(with_ratio(t, target, bits), target, f32_clamp(bits, RATIO_MIN_BITS, RATIO_MAX_BITS)),
        same_but_target_ratios(t, with_ratio(t, target, bits), target),
        leaves(with_ratio(t, target, bits)) == leaves(t),
    decreases t,
{
    match t {
        TreeNode::Window(_) => {},
        TreeNode::Split(s) => {
            if s.id != target {
                lemma_drag_sets_topmost_ratios(*s.left, target, bits);
                lemma_drag_sets_topmost_ratios(*s.right, target, bits);
            }
        },
    }
}

} // verus!
