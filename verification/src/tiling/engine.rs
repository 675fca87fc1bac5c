//! The tiling engine: one tree state per (workspace, monitor) pair, the
//! owner of every inserted window, and the layout pass.

use vstd::prelude::*;
use crate::floatbits::HALF_BITS;
use crate::seqs::{first_index, lemma_first_index};
use crate::tiling::{
    all_edges_fit, compute_workspace_origin, max0, fits, nonneg, origin_fits, side_fn_ok,
    spec_hyprland_gaps, spec_origin, spec_solution_valid, Gaps, LayoutSolution, TiledWindow,
};
use crate::tiling::tree::{
    apply_ratio, collapse, collapse_after_remove, leaf, leaves, lemma_leaves_nonempty,
    node_bars, node_fits, node_layout, with_ratio, Direction, SplitBar, SplitNode, SplitNodeId, TreeNode,
    WindowNode,
};
use crate::wm::{MonitorDef, MonitorId, Rect, WindowId, WindowSnapshot};
use crate::workspace::WorkspaceIndex;

verus! {

/// The tree state of one (workspace, monitor) pair.
pub struct WorkspaceTreeState {
    pub root: Option<TreeNode>,
    pub floats: Vec<TiledWindow>,
    pub gaps: Gaps,
    pub monitor: Option<MonitorId>,
}

/// What a tree state holds: root, floating windows, gaps and monitor.
pub type TreeView = (Option<TreeNode>, Seq<TiledWindow>, Gaps, Option<MonitorId>);

/// The view of a tree state.
pub open spec fn tview(t: WorkspaceTreeState) -> TreeView {
    (t.root, t.floats@, t.gaps, t.monitor)
}

impl WorkspaceTreeState {
    /// An empty tree state with the given gaps.
    pub fn new_with_gaps(gaps: Gaps) -> (r: WorkspaceTreeState)
        ensures
            tview(r) == (None::<TreeNode>, Seq::<TiledWindow>::empty(), gaps, None::<MonitorId>),
    {
        WorkspaceTreeState { root: None, floats: Vec::new(), gaps, monitor: None }
    }

    /// `true` if some window is tiled here (used by smart gaps).
    pub fn has_tiled(&self) -> (r: bool)
        ensures
            r == self.root is Some,
    {
        match &self.root {
            None => false,
            Some(TreeNode::Window(_)) => true,
            Some(TreeNode::Split(s)) => {
                proof {
                    lemma_leaves_nonempty(*s.left);
                }
                let w = s.windows();
                w.len() != 0
            },
        }
    }

    /// A copy of the tree state.
    pub fn duplicate(&self) -> (r: WorkspaceTreeState)
        ensures
            tview(r) == tview(*self),
    {
        let root = match &self.root {
            Some(t) => Some(t.duplicate()),
            None => None,
        };
        let mut floats: Vec<TiledWindow> = Vec::new();
        let mut i: usize = 0;
        while i < self.floats.len()
            invariant
                i <= self.floats@.len(),
                floats@ == self.floats@.subrange(0, i as int),
            decreases self.floats@.len() - i,
        {
            floats.push(self.floats[i].clone());
            i = i + 1;
            assert(floats@ =~= self.floats@.subrange(0, i as int));
        }
        assert(floats@ =~= self.floats@);
        WorkspaceTreeState { root, floats, gaps: self.gaps, monitor: self.monitor }
    }
}

/// The key of a tree state: a (workspace, monitor) pair.
#[derive(Debug, Clone, Copy, PartialEq, Eq, Structural)]
pub struct TreeKey {
    pub workspace: WorkspaceIndex,
    pub monitor: MonitorId,
}

/// The entry has the key `k`.
pub open spec fn has_key(k: TreeKey) -> spec_fn((TreeKey, TreeView)) -> bool {
    |e: (TreeKey, TreeView)| e.0 == k
}

/// The owner entry is for window `w`.
pub open spec fn owns(w: WindowId) -> spec_fn((WindowId, TreeKey)) -> bool {
    |e: (WindowId, TreeKey)| e.0 == w
}

/// Position of the tree with key `k`, or `-1`.
pub open spec fn tree_pos(ts: Seq<(TreeKey, TreeView)>, k: TreeKey) -> int {
    first_index(ts, has_key(k))
}

/// Position of the owner entry of `w`, or `-1`.
pub open spec fn owner_pos(os: Seq<(WindowId, TreeKey)>, w: WindowId) -> int {
    first_index(os, owns(w))
}

/// The tree states after making sure one exists for `k`; a new one has
/// the Hyprland gaps and the monitor of `k`.
pub open spec fn ensure_tree(ts: Seq<(TreeKey, TreeView)>, k: TreeKey) -> Seq<(TreeKey, TreeView)> {
    if tree_pos(ts, k) >= 0 {
        ts
    } else {
        ts.push((k, (None::<TreeNode>, Seq::<TiledWindow>::empty(), spec_hyprland_gaps(), Some(k.monitor))))
    }
}

/// The position of the tree for `k` once it is ensured.
pub open spec fn ensured_pos(ts: Seq<(TreeKey, TreeView)>, k: TreeKey) -> int {
    if tree_pos(ts, k) >= 0 {
        tree_pos(ts, k)
    } else {
        ts.len() as int
    }
}

/// What a search for a tree key tells about its position.
pub proof fn lemma_tree_pos(ts: Seq<(TreeKey, TreeView)>, k: TreeKey)
    ensures
        -1 <= tree_pos(ts, k) < ts.len(),
        tree_pos(ts, k) == -1 <==> (forall|j: int| 0 <= j < ts.len() ==> (#[trigger] ts[j]).0 != k),
        tree_pos(ts, k) >= 0 ==> ts[tree_pos(ts, k)].0 == k,
        forall|j: int| 0 <= j < tree_pos(ts, k) ==> (#[trigger] ts[j]).0 != k,
{
    lemma_first_index(ts, has_key(k));
}

/// What a search for an owner tells about its position.
pub proof fn lemma_owner_pos(os: Seq<(WindowId, TreeKey)>, w: WindowId)
    ensures
        -1 <= owner_pos(os, w) < os.len(),
        owner_pos(os, w) == -1 <==> (forall|j: int| 0 <= j < os.len() ==> (#[trigger] os[j]).0 != w),
        owner_pos(os, w) >= 0 ==> os[owner_pos(os, w)].0 == w,
        forall|j: int| 0 <= j < owner_pos(os, w) ==> (#[trigger] os[j]).0 != w,
{
    lemma_first_index(os, owns(w));
}

/// Upsert an owner entry: an existing window keeps its position.
pub open spec fn set_owner(os: Seq<(WindowId, TreeKey)>, w: WindowId, k: TreeKey) -> Seq<(WindowId, TreeKey)> {
    let p = owner_pos(os, w);
    if p >= 0 {
        os.update(p, (w, k))
    } else {
        os.push((w, k))
    }
}

/// The split id after `next_id` (wrapping).
pub open spec fn next_split(n: u64) -> u64 {
    if n == u64::MAX {
        0
    } else {
        (n + 1) as u64
    }
}

/// The root after inserting `window`: a leaf if the tree was empty, else
/// an even horizontal split with the whole existing tree first and the new
/// window second.
pub open spec fn inserted_root(root: Option<TreeNode>, window: WindowId, id: SplitNodeId) -> TreeNode {
    match root {
        None => TreeNode::Window(WindowNode { id: window, transient_for: None, previous_rect: None }),
        Some(existing) => TreeNode::Split(SplitNode {
            id,
            direction: Direction::Horizontal,
            ratio_bits: HALF_BITS,
            left: Box::new(existing),
            right: Box::new(TreeNode::Window(WindowNode { id: window, transient_for: None, previous_rect: None })),
        }),
    }
}

/// Inserting a window into a non-empty tree splits it evenly: the new root
/// is a horizontal split with ratio one half (`0.5f32`), the previous tree
/// first and a leaf holding the new window second, under the given id.
pub proof fn lemma_insert_splits_evenly(existing: TreeNode, window: WindowId, id: SplitNodeId)
    ensures
        inserted_root(Some(existing), window, id) matches TreeNode::Split(s) && {
            &&& s.ratio_bits == HALF_BITS
            &&& s.id == id
            &&& s.direction == Direction::Horizontal
            &&& *s.left == existing
            &&& *s.right == TreeNode::Window(WindowNode { id: window, transient_for: None, previous_rect: None })
        },
        HALF_BITS == 0x3f00_0000u32,
{
}

/// Inserting into an empty tree gives a single leaf holding the window.
pub proof fn lemma_insert_into_empty_is_leaf(window: WindowId, id: SplitNodeId)
    ensures
        inserted_root(None, window, id) == TreeNode::Window(WindowNode { id: window, transient_for: None, previous_rect: None }),
{
}

/// The windows of the tree before an insertion, in order.
pub open spec fn root_leaves(root: Option<TreeNode>) -> Seq<WindowId> {
    match root {
        None => Seq::empty(),
        Some(t) => leaves(t),
    }
}

/// Inserting a window keeps every window the tree held, in order, and adds
/// the new one last.
pub proof fn lemma_insert_keeps_windows(root: Option<TreeNode>, window: WindowId, id: SplitNodeId)
    ensures
        leaves(inserted_root(root, window, id)) == root_leaves(root).push(window),
{
    match root {
        None => {
            let n = TreeNode::Window(WindowNode { id: window, transient_for: None, previous_rect: None });
            assert(inserted_root(root, window, id) == n);
            assert(leaves(n) == seq![window]);
            assert(root_leaves(root) == Seq::<WindowId>::empty());
            assert(seq![window] =~= Seq::<WindowId>::empty().push(window));
        },
        Some(t) => {
            let n = TreeNode::Window(WindowNode { id: window, transient_for: None, previous_rect: None });
            assert(leaves(n) == seq![window]);
            assert(leaves(inserted_root(root, window, id)) == leaves(t) + leaves(n));
            assert(leaves(t) + seq![window] =~= leaves(t).push(window));
        },
    }
}

/// The gaps a layout uses: with smart gaps on and a single tiled window
/// the outer gaps are dropped.
pub open spec fn effective_gaps(g: Gaps, root: Option<TreeNode>) -> Gaps {
    if g.smart_gaps && (root matches Some(TreeNode::Window(_))) {
        Gaps { outer_top: 0, outer_right: 0, outer_bottom: 0, outer_left: 0, inner: g.inner, smart_gaps: g.smart_gaps }
    } else {
        g
    }
}

/// Divider `a` sorts no later than `b` by `(x, y)`.
pub open spec fn bar_le(a: SplitBar, b: SplitBar) -> bool {
    a.rect.x < b.rect.x || (a.rect.x == b.rect.x && a.rect.y <= b.rect.y)
}

/// The divider sorts after `b`.
pub open spec fn after_bar(b: SplitBar) -> spec_fn(SplitBar) -> bool {
    |c: SplitBar| !bar_le(c, b)
}

/// Insert `b` into sorted dividers after every divider not sorting after it.
pub open spec fn insert_bar(sorted: Seq<SplitBar>, b: SplitBar) -> Seq<SplitBar> {
    let i = first_index(sorted, after_bar(b));
    if i < 0 {
        sorted.push(b)
    } else {
        sorted.insert(i, b)
    }
}

/// The dividers sorted stably by `(x, y)`.
pub open spec fn sort_bars(s: Seq<SplitBar>) -> Seq<SplitBar>
    decreases s.len(),
{
    if s.len() == 0 {
        s
    } else {
        insert_bar(sort_bars(s.drop_last()), s.last())
    }
}

/// The leaf rects of a tree state laid out in `origin`, then the rects
/// of its floating windows.
pub open spec fn tree_leaves<F: Fn(i32, u32) -> i32>(v: TreeView, origin: Rect, f: F) -> Seq<(WindowId, Rect)> {
    let tiled = match v.0 {
        Some(TreeNode::Window(w)) => seq![(w.id, origin)],
        Some(TreeNode::Split(s)) => node_layout(TreeNode::Split(s), origin, v.2.inner, f),
        None => Seq::empty(),
    };
    tiled + v.1.map_values(|t: TiledWindow| (t.id, t.rect))
}

/// The dividers of a tree state laid out in `origin`, before sorting.
pub open spec fn tree_bars<F: Fn(i32, u32) -> i32>(v: TreeView, origin: Rect, f: F) -> Seq<SplitBar> {
    match v.0 {
        Some(TreeNode::Split(s)) => node_bars(TreeNode::Split(s), origin, v.2.inner, f),
        _ => Seq::empty(),
    }
}

/// The tree views once `compute_for` has ensured and tagged the tree.
pub open spec fn computed_trees(ts: Seq<(TreeKey, TreeView)>, k: TreeKey) -> Seq<(TreeKey, TreeView)> {
    let e = ensure_tree(ts, k);
    let p = ensured_pos(ts, k);
    e.update(p, (k, (e[p].1.0, e[p].1.1, e[p].1.2, Some(k.monitor))))
}

/// The view of the tree `compute_for` lays out.
pub open spec fn computed_view(ts: Seq<(TreeKey, TreeView)>, k: TreeKey) -> TreeView {
    computed_trees(ts, k)[ensured_pos(ts, k)].1
}

/// The layout origin `compute_for` uses.
pub open spec fn computed_origin(ts: Seq<(TreeKey, TreeView)>, k: TreeKey, rect: Rect, ph: i32) -> Rect {
    let v = computed_view(ts, k);
    spec_origin(rect, effective_gaps(v.2, v.0), ph)
}

/// The layout arithmetic of `compute_for` fits in `i32`.
pub open spec fn compute_fits<F: Fn(i32, u32) -> i32>(ts: Seq<(TreeKey, TreeView)>, k: TreeKey, rect: Rect, ph: i32, f: F) -> bool {
    let v = computed_view(ts, k);
    let origin = computed_origin(ts, k, rect, ph);
    &&& origin_fits(rect, effective_gaps(v.2, v.0), ph)
    &&& match v.0 {
        Some(t) => node_fits(t, origin, v.2.inner, f),
        None => true,
    }
}

/// The tree entry belongs to workspace `ws`.
pub open spec fn on_workspace(ws: WorkspaceIndex) -> spec_fn((TreeKey, TreeView)) -> bool {
    |e: (TreeKey, TreeView)| e.0.workspace == ws
}

/// The monitor `recalculate_for_workspace` and `snapshot` lay out: that
/// of the first tree of the workspace, else the primary monitor.
pub open spec fn workspace_monitor(ts: Seq<(TreeKey, TreeView)>, ws: WorkspaceIndex) -> MonitorId {
    let i = first_index(ts, on_workspace(ws));
    if i >= 0 {
        ts[i].0.monitor
    } else {
        MonitorId(0)
    }
}

/// The fallback monitor rect.
pub open spec fn fallback_rect() -> Rect {
    Rect { x: 0, y: 0, width: 1920, height: 1080 }
}

/// Truncating division, as Rust's `/` on signed integers computes it.
pub open spec fn trunc_div(a: int, b: int) -> int {
    if a >= 0 {
        a / b
    } else {
        -((-a) / b)
    }
}

/// The number of columns of the equal grid: `max(n, 1)`.
pub open spec fn grid_cols(n: int) -> int {
    if n > 1 {
        n
    } else {
        1
    }
}

/// The per-window width of the equal grid.
pub open spec fn grid_per(origin: Rect, n: int) -> int {
    trunc_div(origin.width - nonneg(n - 1) * 6, n)
}

/// The equal grid's arithmetic fits in `i32`.
pub open spec fn grid_fits(rect: Rect, n: int, ph: i32) -> bool {
    let m = grid_cols(n);
    let origin = spec_origin(rect, spec_hyprland_gaps(), ph);
    let per = grid_per(origin, m);
    &&& m <= i32::MAX
    &&& origin_fits(rect, spec_hyprland_gaps(), ph)
    &&& fits(nonneg(m - 1) * 6)
    &&& fits(origin.width - nonneg(m - 1) * 6)
    &&& fits(per + 6)
    &&& forall|i: int| 0 <= i < m ==> fits(#[trigger] col_offset(per, i)) && fits(origin.x + col_offset(per, i))
}

/// The offset of column `i` of the equal grid.
pub open spec fn col_offset(per: int, i: int) -> int {
    i * (per + 6)
}

/// The equal grid: `max(n, 1)` columns of equal width separated by 6px,
/// with placeholder ids.
pub open spec fn grid_windows(rect: Rect, n: int, ph: i32) -> Seq<(WindowId, Rect)> {
    let m = grid_cols(n);
    let origin = spec_origin(rect, spec_hyprland_gaps(), ph);
    let per = grid_per(origin, m);
    Seq::new(m as nat, |i: int| (WindowId(0), Rect {
        x: (origin.x + col_offset(per, i)) as i32,
        y: origin.y,
        width: nonneg(per) as i32,
        height: origin.height,
    }))
}

/// The monitor a tree is on, the primary one when unset.
pub open spec fn monitor_or_primary(m: Option<MonitorId>) -> MonitorId {
    match m {
        Some(id) => id,
        None => MonitorId(0),
    }
}

/// The trees after `set_gaps`: every tree keyed `(ws, m)` where `m` is
/// the monitor of some tree gets the gaps.
pub open spec fn gapped(ts: Seq<(TreeKey, TreeView)>, ws: WorkspaceIndex, g: Gaps) -> Seq<(TreeKey, TreeView)> {
    Seq::new(ts.len(), |i: int| {
        let e = ts[i];
        if e.0.workspace == ws && exists|j: int| 0 <= j < ts.len() && monitor_or_primary(ts[j].1.3) == e.0.monitor {
            (e.0, (e.1.0, e.1.1, g, e.1.3))
        } else {
            e
        }
    })
}

/// The windows held by a tree: its leaves and floating windows.
pub open spec fn tree_holds(v: TreeView, w: WindowId) -> bool {
    (match v.0 {
        Some(t) => leaves(t).contains(w),
        None => false,
    }) || exists|i: int| 0 <= i < v.1.len() && v.1[i].id == w
}

/// A monitor no longer in `monitors`.
pub open spec fn stale(monitors: Seq<MonitorDef>, m: MonitorId) -> bool {
    forall|i: int| 0 <= i < monitors.len() ==> monitors[i].id != m
}

/// The window sits in a tree on a stale monitor that some owner entry
/// points at.
pub open spec fn on_stale(ts: Seq<(TreeKey, TreeView)>, os: Seq<(WindowId, TreeKey)>, monitors: Seq<MonitorDef>, w: WindowId) -> bool {
    exists|i: int, j: int|
        0 <= i < ts.len() && 0 <= j < os.len() && stale(monitors, ts[i].0.monitor) && os[j].1 == ts[i].0 && tree_holds(ts[i].1, w)
}

/// The monitor is flagged primary.
pub open spec fn is_primary() -> spec_fn(MonitorDef) -> bool {
    |m: MonitorDef| m.primary
}

/// The primary monitor of a replacement list: the first one flagged,
/// else monitor 0.
pub open spec fn new_primary(monitors: Seq<MonitorDef>) -> MonitorId {
    let i = first_index(monitors, is_primary());
    if i >= 0 {
        monitors[i].id
    } else {
        MonitorId(0)
    }
}

/// The owners after `replace_monitors`: windows of trees on stale
/// monitors are reassigned to the primary monitor, keeping their workspace.
pub open spec fn rehomed(ts: Seq<(TreeKey, TreeView)>, os: Seq<(WindowId, TreeKey)>, monitors: Seq<MonitorDef>) -> Seq<(WindowId, TreeKey)> {
    Seq::new(os.len(), |j: int| {
        let e = os[j];
        if on_stale(ts, os, monitors, e.0) {
            (e.0, TreeKey { workspace: e.1.workspace, monitor: new_primary(monitors) })
        } else {
            e
        }
    })
}

/// Sort dividers stably by `(x, y)`.
pub fn sort_dividers(v: Vec<SplitBar>) -> (r: Vec<SplitBar>)
    ensures
        r@ == sort_bars(v@),
{
    let mut out: Vec<SplitBar> = Vec::new();
    let mut i: usize = 0;
    assert(v@.subrange(0, 0) =~= Seq::<SplitBar>::empty());
    while i < v.len()
        invariant
            i <= v@.len(),
            out@ == sort_bars(v@.subrange(0, i as int)),
        decreases v@.len() - i,
    {
        let b = v[i];
        assert(v@.subrange(0, i + 1).drop_last() =~= v@.subrange(0, i as int));
        proof {
            lemma_first_index(out@, after_bar(b));
        }
        let mut j: usize = 0;
        while j < out.len() && (out[j].rect.x < b.rect.x || (out[j].rect.x == b.rect.x && out[j].rect.y <= b.rect.y))
            invariant
                j <= out@.len(),
                forall|k: int| 0 <= k < j ==> bar_le(#[trigger] out@[k], b),
            decreases out@.len() - j,
        {
            j = j + 1;
        }
        proof {
            let q = first_index(out@, after_bar(b));
            if j < out@.len() {
                assert(after_bar(b)(out@[j as int]));
                if 0 <= q < j {
                    assert(bar_le(out@[q], b));
                }
                assert(q == j);
            } else {
                assert forall|k: int| 0 <= k < out@.len() implies !after_bar(b)(#[trigger] out@[k]) by {
                    assert(bar_le(out@[k], b));
                }
                assert(q == -1);
            }
        }
        if j < out.len() {
            out.insert(j, b);
        } else {
            out.push(b);
        }
        i = i + 1;
    }
    assert(v@.subrange(0, i as int) =~= v@);
    out
}

/// The layout `recalculate_for_workspace` computes can be computed
/// without `i32` overflow, and so can its validity check and fallback.
pub open spec fn recalc_fits<F: Fn(i32, u32) -> i32>(ts: Seq<(TreeKey, TreeView)>, ws: WorkspaceIndex, ph: i32, f: F) -> bool {
    let k = TreeKey { workspace: ws, monitor: workspace_monitor(ts, ws) };
    let v = computed_view(ts, k);
    let origin = computed_origin(ts, k, fallback_rect(), ph);
    let leaves = tree_leaves(v, origin, f);
    &&& compute_fits(ts, k, fallback_rect(), ph, f)
    &&& all_edges_fit(leaves)
    &&& (!spec_solution_valid(leaves) ==> grid_fits(fallback_rect(), leaves.len() as int, ph))
}

/// The tree state holds window `w` (as a leaf or floating).
pub fn tree_holds_exec(t: &WorkspaceTreeState, w: WindowId) -> (r: bool)
    ensures
        r == tree_holds(tview(*t), w),
{
    let in_tree = match &t.root {
        Some(root) => root.contains(w),
        None => false,
    };
    if in_tree {
        assert(tview(*t).0 == t.root);
        return true;
    }
    let mut i: usize = 0;
    while i < t.floats.len()
        invariant
            i <= t.floats@.len(),
            forall|k: int| 0 <= k < i ==> (#[trigger] t.floats@[k]).id != w,
        decreases t.floats@.len() - i,
    {
        if t.floats[i].id == w {
            assert(tview(*t).1[i as int].id == w);
            return true;
        }
        i = i + 1;
    }
    false
}

/// `m` is not among the given monitors.
pub fn is_stale(monitors: &Vec<MonitorDef>, m: MonitorId) -> (r: bool)
    ensures
        r == stale(monitors@, m),
{
    let mut i: usize = 0;
    while i < monitors.len()
        invariant
            i <= monitors@.len(),
            forall|k: int| 0 <= k < i ==> monitors@[k].id != m,
        decreases monitors@.len() - i,
    {
        if monitors[i].id == m {
            return false;
        }
        i = i + 1;
    }
    true
}

/// The primary monitor of a replacement list.
pub fn primary_of(monitors: &Vec<MonitorDef>) -> (r: MonitorId)
    ensures
        r == new_primary(monitors@),
{
    proof {
        lemma_first_index(monitors@, is_primary());
    }
    let mut i: usize = 0;
    while i < monitors.len()
        invariant
            i <= monitors@.len(),
            forall|k: int| 0 <= k < i ==> !(#[trigger] monitors@[k]).primary,
        decreases monitors@.len() - i,
    {
        if monitors[i].primary {
            proof {
                lemma_first_index(monitors@, is_primary());
                let q = first_index(monitors@, is_primary());
                if 0 <= q < i {
                    assert(!monitors@[q].primary);
                }
                assert(is_primary()(monitors@[i as int]));
            }
            return monitors[i].id;
        }
        i = i + 1;
    }
    proof {
        assert forall|k: int| 0 <= k < monitors@.len() implies !is_primary()(#[trigger] monitors@[k]) by {}
    }
    MonitorId(0)
}

/// The tiling engine.
pub struct TilingEngineImpl {
    trees: Vec<(TreeKey, WorkspaceTreeState)>,
    next_split_id: u64,
    owners: Vec<(WindowId, TreeKey)>,
    panel_height: i32,
}

impl TilingEngineImpl {
    /// The tree states, by key, in creation order.
    pub closed spec fn trees(&self) -> Seq<(TreeKey, TreeView)> {
        self.trees@.map_values(|e: (TreeKey, WorkspaceTreeState)| (e.0, tview(e.1)))
    }

    /// The owner (workspace, monitor) of every inserted window.
    pub closed spec fn owners(&self) -> Seq<(WindowId, TreeKey)> {
        self.owners@
    }

    /// The last split id handed out.
    pub closed spec fn next_split_id(&self) -> u64 {
        self.next_split_id
    }

    /// The panel height taken off the top of every workspace.
    pub closed spec fn panel_height(&self) -> i32 {
        self.panel_height
    }

    /// Keys and owned windows are unique.
    pub open spec fn wf(&self) -> bool {
        &&& forall|i: int, j: int| 0 <= i < j < self.trees().len() ==> self.trees()[i].0 != self.trees()[j].0
        &&& forall|i: int, j: int| 0 <= i < j < self.owners().len() ==> self.owners()[i].0 != self.owners()[j].0
    }

    /// A new engine whose workspaces lose `panel_height` pixels at the top.
    pub fn new(panel_height: i32) -> (r: TilingEngineImpl)
        ensures
            r.wf(),
            r.trees().len() == 0,
            r.owners().len() == 0,
            r.next_split_id() == 1,
            r.panel_height() == panel_height,
    {
        let r = TilingEngineImpl { trees: Vec::new(), next_split_id: 1, owners: Vec::new(), panel_height };
        assert(r.trees() =~= Seq::empty());
        r
    }

    fn next_id(&mut self) -> (r: SplitNodeId)
        ensures
            final(self).next_split_id == next_split(old(self).next_split_id),
            r == SplitNodeId(final(self).next_split_id),
            final(self).trees == old(self).trees,
            final(self).owners == old(self).owners,
            final(self).panel_height == old(self).panel_height,
    {
        self.next_split_id = self.next_split_id.wrapping_add(1);
        SplitNodeId(self.next_split_id)
    }

    proof fn lemma_trees_all(&self)
        ensures
            self.trees().len() == self.trees@.len(),
            forall|i: int| 0 <= i < self.trees@.len() ==> #[trigger] self.trees()[i] == (self.trees@[i].0, tview(self.trees@[i].1)),
    {
    }

    proof fn lemma_trees_index(&self, i: int)
        requires
            0 <= i < self.trees@.len(),
        ensures
            self.trees()[i] == (self.trees@[i].0, tview(self.trees@[i].1)),
            self.trees().len() == self.trees@.len(),
    {
    }

    fn find_tree(&self, key: TreeKey) -> (r: Option<usize>)
        ensures
            r matches Some(p) ==> p == tree_pos(self.trees(), key) && p < self.trees@.len(),
            r is None ==> tree_pos(self.trees(), key) == -1,
    {
        proof {
            lemma_tree_pos(self.trees(), key);
        }
        let mut i: usize = 0;
        while i < self.trees.len()
            invariant
                i <= self.trees@.len(),
                self.trees().len() == self.trees@.len(),
                forall|j: int| 0 <= j < i ==> (#[trigger] self.trees()[j]).0 != key,
            decreases self.trees@.len() - i,
        {
            proof {
                self.lemma_trees_index(i as int);
            }
            if self.trees[i].0 == key {
                proof {
                    lemma_tree_pos(self.trees(), key);
                    let q = tree_pos(self.trees(), key);
                    if 0 <= q < i {
                        assert(self.trees()[q].0 != key);
                    }
                    assert(self.trees()[i as int].0 == key);
                }
                return Some(i);
            }
            i = i + 1;
        }
        None
    }

    fn find_owner(&self, w: WindowId) -> (r: Option<usize>)
        ensures
            r matches Some(p) ==> p == owner_pos(self.owners(), w) && p < self.owners@.len(),
            r is None ==> owner_pos(self.owners(), w) == -1,
    {
        proof {
            lemma_owner_pos(self.owners@, w);
        }
        let mut i: usize = 0;
        while i < self.owners.len()
            invariant
                i <= self.owners@.len(),
                forall|j: int| 0 <= j < i ==> (#[trigger] self.owners@[j]).0 != w,
            decreases self.owners@.len() - i,
        {
            if self.owners[i].0 == w {
                proof {
                    lemma_owner_pos(self.owners@, w);
                    let q = owner_pos(self.owners@, w);
                    if 0 <= q < i {
                        assert(self.owners@[q].0 != w);
                    }
                }
                return Some(i);
            }
            i = i + 1;
        }
        None
    }

    /// Take the tree state at `p` out; `restore_tree` puts it back.
    fn take_tree(&mut self, p: usize) -> (r: (TreeKey, WorkspaceTreeState))
        requires
            p < old(self).trees@.len(),
        ensures
            r == old(self).trees@[p as int],
            final(self).trees@ == old(self).trees@.remove(p as int),
            final(self).owners == old(self).owners,
            final(self).next_split_id == old(self).next_split_id,
            final(self).panel_height == old(self).panel_height,
    {
        self.trees.remove(p)
    }

    fn restore_tree(&mut self, p: usize, e: (TreeKey, WorkspaceTreeState))
        requires
            p <= old(self).trees@.len(),
        ensures
            final(self).trees@ == old(self).trees@.insert(p as int, e),
            final(self).owners == old(self).owners,
            final(self).next_split_id == old(self).next_split_id,
            final(self).panel_height == old(self).panel_height,
    {
        self.trees.insert(p, e);
    }

    fn ensure_tree_exec(&mut self, key: TreeKey) -> (p: usize)
        requires
            old(self).wf(),
        ensures
            final(self).wf(),
            p == ensured_pos(old(self).trees(), key),
            p < final(self).trees@.len(),
            final(self).trees() == ensure_tree(old(self).trees(), key),
            final(self).owners == old(self).owners,
            final(self).next_split_id == old(self).next_split_id,
            final(self).panel_height == old(self).panel_height,
    {
        proof {
            lemma_tree_pos(self.trees(), key);
            self.lemma_trees_all();
        }
        match self.find_tree(key) {
            Some(p) => {
                assert(self.wf());
                p
            },
            None => {
                let mut t = WorkspaceTreeState::new_with_gaps(Gaps::hyprland_defaults());
                t.monitor = Some(key.monitor);
                self.trees.push((key, t));
                proof {
                    self.lemma_trees_all();
                    assert(self.trees() =~= ensure_tree(old(self).trees(), key));
                    assert forall|i: int, j: int| 0 <= i < j < self.trees().len() implies self.trees()[i].0 != self.trees()[j].0 by {
                        if j == self.trees().len() - 1 {
                            assert(old(self).trees()[i].0 != key);
                        } else {
                            assert(old(self).trees()[i].0 != old(self).trees()[j].0);
                        }
                    }
                    assert(self.owners() == old(self).owners());
                    assert(forall|i: int, j: int| 0 <= i < j < self.owners().len() ==> self.owners()[i].0 != self.owners()[j].0);
                }
                (self.trees.len() - 1) as usize
            },
        }
    }

    /// Make sure a tree state exists for `(ws, monitor)` and return a copy.
    pub fn get_or_init_tree(&mut self, ws: WorkspaceIndex, monitor: MonitorId, gaps: Gaps) -> (r: WorkspaceTreeState)
        requires
            old(self).wf(),
        ensures
            final(self).wf(),
            ({
                let k = TreeKey { workspace: ws, monitor };
                let p = tree_pos(old(self).trees(), k);
                if p >= 0 {
                    &&& final(self).trees() == old(self).trees()
                    &&& tview(r) == old(self).trees()[p].1
                } else {
                    &&& final(self).trees() == old(self).trees().push((k, (None::<TreeNode>, Seq::<TiledWindow>::empty(), gaps, None::<MonitorId>)))
                    &&& tview(r) == (None::<TreeNode>, Seq::<TiledWindow>::empty(), gaps, None::<MonitorId>)
                }
            }),
            final(self).owners() == old(self).owners(),
            final(self).next_split_id() == old(self).next_split_id(),
            final(self).panel_height() == old(self).panel_height(),
    {
        let key = TreeKey { workspace: ws, monitor };
        proof {
            lemma_tree_pos(self.trees(), key);
            self.lemma_trees_all();
        }
        match self.find_tree(key) {
            Some(p) => self.trees[p].1.duplicate(),
            None => {
                let t = WorkspaceTreeState::new_with_gaps(gaps);
                let copy = t.duplicate();
                self.trees.push((key, t));
                proof {
                    self.lemma_trees_all();
                    assert(self.trees() =~= old(self).trees().push((key, (None::<TreeNode>, Seq::<TiledWindow>::empty(), gaps, None::<MonitorId>))));
                    assert forall|i: int, j: int| 0 <= i < j < self.trees().len() implies self.trees()[i].0 != self.trees()[j].0 by {
                        if j == self.trees().len() - 1 {
                            assert(old(self).trees()[i].0 != key);
                        } else {
                            assert(old(self).trees()[i].0 != old(self).trees()[j].0);
                        }
                    }
                    assert(self.owners() == old(self).owners());
                    assert(forall|i: int, j: int| 0 <= i < j < self.owners().len() ==> self.owners()[i].0 != self.owners()[j].0);
                }
                copy
            },
        }
    }

    /// Lay out the tree of `(ws, monitor)` within `workspace_rect`,
    /// creating the tree state if needed and tagging it with the monitor.
    /// Floating windows keep their stored rects; dividers come sorted by
    /// `(x, y)`.
    pub fn compute_for<F: Fn(i32, u32) -> i32>(&mut self, ws: WorkspaceIndex, monitor: MonitorId, workspace_rect: Rect, side: &F) -> (r: LayoutSolution)
        requires
            old(self).wf(),
            side_fn_ok(*side),
            compute_fits(old(self).trees(), TreeKey { workspace: ws, monitor }, workspace_rect, old(self).panel_height(), *side),
        ensures
            final(self).wf(),
            final(self).trees() == computed_trees(old(self).trees(), TreeKey { workspace: ws, monitor }),
            final(self).owners() == old(self).owners(),
            final(self).next_split_id() == old(self).next_split_id(),
            final(self).panel_height() == old(self).panel_height(),
            ({
                let k = TreeKey { workspace: ws, monitor };
                let v = computed_view(old(self).trees(), k);
                let origin = computed_origin(old(self).trees(), k, workspace_rect, old(self).panel_height());
                &&& r.windows@ == tree_leaves(v, origin, *side)
                &&& r.dividers@ == sort_bars(tree_bars(v, origin, *side))
                &&& r.workspace_rect == origin
            }),
    {
        let key = TreeKey { workspace: ws, monitor };
        let p = self.ensure_tree_exec(key);
        let ghost mid = self.trees();
        let ghost mid_raw = self.trees@;
        proof {
            self.lemma_trees_all();
            lemma_tree_pos(old(self).trees(), key);
            assert(mid[p as int].0 == key);
        }
        let (k, mut tree) = self.take_tree(p);
        tree.monitor = Some(monitor);
        let gaps = tree.gaps;
        let single = match &tree.root {
            Some(TreeNode::Window(_)) => true,
            _ => false,
        };
        let effective = if gaps.smart_gaps && tree.has_tiled() && single {
            Gaps { outer_top: 0, outer_right: 0, outer_bottom: 0, outer_left: 0, inner: gaps.inner, smart_gaps: gaps.smart_gaps }
        } else {
            gaps
        };
        let ghost v = tview(tree);
        assert(v == computed_view(old(self).trees(), key));
        let origin = compute_workspace_origin(workspace_rect, &effective, self.panel_height);
        let (mut leaves, dividers) = match &tree.root {
            Some(TreeNode::Window(w)) => {
                let mut l: Vec<(WindowId, Rect)> = Vec::new();
                l.push((w.id, origin));
                (l, Vec::new())
            },
            Some(TreeNode::Split(s)) => s.layout(origin, gaps.inner, side),
            None => (Vec::new(), Vec::new()),
        };
        let ghost tiled = leaves@;
        let mut i: usize = 0;
        while i < tree.floats.len()
            invariant
                i <= tree.floats@.len(),
                leaves@ == tiled + tree.floats@.subrange(0, i as int).map_values(|t: TiledWindow| (t.id, t.rect)),
            decreases tree.floats@.len() - i,
        {
            leaves.push((tree.floats[i].id, tree.floats[i].rect));
            i = i + 1;
            assert(leaves@ =~= tiled + tree.floats@.subrange(0, i as int).map_values(|t: TiledWindow| (t.id, t.rect)));
        }
        assert(tree.floats@.subrange(0, i as int) =~= tree.floats@);
        let dividers = sort_dividers(dividers);
        self.restore_tree(p, (k, tree));
        proof {
            self.lemma_trees_all();
            assert(self.trees@ =~= mid_raw.update(p as int, (k, tree)));
            assert(self.trees() =~= mid.update(p as int, (key, tview(tree))));
            assert(self.trees() =~= computed_trees(old(self).trees(), key));
            assert(leaves@ =~= tree_leaves(v, origin, *side));
            assert forall|a: int, b: int| 0 <= a < b < self.trees().len() implies self.trees()[a].0 != self.trees()[b].0 by {
                assert(mid[a].0 != mid[b].0);
                assert(self.trees()[a].0 == mid[a].0);
                assert(self.trees()[b].0 == mid[b].0);
            }
            assert(self.owners() == old(self).owners());
            assert(forall|a: int, b: int| 0 <= a < b < self.owners().len() ==> self.owners()[a].0 != self.owners()[b].0);
        }
        LayoutSolution { windows: leaves, dividers, workspace_rect: origin }
    }

    /// The fallback layout used when a computed one is invalid: equal
    /// columns for `n` windows (at least one) with placeholder ids.
    pub fn safe_equal_grid(&self, workspace_rect: Rect, n: usize, panel_height: i32) -> (r: LayoutSolution)
        requires
            grid_fits(workspace_rect, n as int, panel_height),
        ensures
            r.windows@ == grid_windows(workspace_rect, n as int, panel_height),
            r.dividers@.len() == 0,
            r.workspace_rect == spec_origin(workspace_rect, spec_hyprland_gaps(), panel_height),
    {
        let n1: usize = if n > 1 {
            n
        } else {
            1
        };
        let m = n1 as i32;
        let gaps = Gaps::hyprland_defaults();
        let origin = compute_workspace_origin(workspace_rect, &gaps, panel_height);
        let k: i32 = if m - 1 > 0 {
            m - 1
        } else {
            0
        };
        let num = origin.width - k * 6;
        let per: i32 = if num >= 0 {
            num / m
        } else {
            -((-num) / m)
        };
        assert(per == grid_per(origin, m as int));
        let mut leaves: Vec<(WindowId, Rect)> = Vec::new();
        let mut i: i32 = 0;
        while i < m
            invariant
                0 <= i <= m,
                m as int == n1 as int,
                n1 as int == grid_cols(n as int),
                per == grid_per(origin, m as int),
                origin == spec_origin(workspace_rect, spec_hyprland_gaps(), panel_height),
                grid_fits(workspace_rect, n as int, panel_height),
                leaves@ == grid_windows(workspace_rect, n as int, panel_height).subrange(0, i as int),
            decreases m - i,
        {
            proof {
                let mm: int = grid_cols(n as int);
                let pp = grid_per(spec_origin(workspace_rect, spec_hyprland_gaps(), panel_height), mm);
                assert(0 <= i < mm);
                let o = spec_origin(workspace_rect, spec_hyprland_gaps(), panel_height);
                assert(forall|q: int| 0 <= q < mm ==> fits(#[trigger] col_offset(pp, q)) && fits(o.x + col_offset(pp, q)));
                assert(fits(col_offset(pp, i as int)));
                assert(pp == per);
            }
            let x = origin.x + i * (per + 6);
            leaves.push((WindowId(0), Rect::new(x, origin.y, max0(per), origin.height)));
            i = i + 1;
            assert(leaves@ =~= grid_windows(workspace_rect, n as int, panel_height).subrange(0, i as int));
        }
        assert(leaves@ =~= grid_windows(workspace_rect, n as int, panel_height));
        LayoutSolution { windows: leaves, dividers: Vec::new(), workspace_rect: origin }
    }

    fn monitor_for(&self, ws: WorkspaceIndex) -> (r: MonitorId)
        ensures
            r == workspace_monitor(self.trees(), ws),
    {
        proof {
            lemma_first_index(self.trees(), on_workspace(ws));
            self.lemma_trees_all();
        }
        let mut i: usize = 0;
        while i < self.trees.len()
            invariant
                i <= self.trees@.len(),
                self.trees().len() == self.trees@.len(),
                forall|j: int| 0 <= j < i ==> (#[trigger] self.trees()[j]).0.workspace != ws,
            decreases self.trees@.len() - i,
        {
            proof {
                self.lemma_trees_index(i as int);
            }
            if self.trees[i].0.workspace == ws {
                proof {
                    lemma_first_index(self.trees(), on_workspace(ws));
                    let q = first_index(self.trees(), on_workspace(ws));
                    if 0 <= q < i {
                        assert(self.trees()[q].0.workspace != ws);
                    }
                    assert(on_workspace(ws)(self.trees()[i as int]));
                }
                return self.trees[i].0.monitor;
            }
            i = i + 1;
        }
        proof {
            assert forall|j: int| 0 <= j < self.trees().len() implies !on_workspace(ws)(#[trigger] self.trees()[j]) by {}
        }
        MonitorId(0)
    }

    /// Recalculate the layout of `ws` on its first known monitor (the
    /// primary one if none) within the 1920x1080 fallback rect; an invalid
    /// layout is replaced by the equal grid.
    pub fn recalculate_for_workspace<F: Fn(i32, u32) -> i32>(&mut self, ws: WorkspaceIndex, side: &F) -> (r: LayoutSolution)
        requires
            old(self).wf(),
            side_fn_ok(*side),
            recalc_fits(old(self).trees(), ws, old(self).panel_height(), *side),
        ensures
            final(self).wf(),
            ({
                let k = TreeKey { workspace: ws, monitor: workspace_monitor(old(self).trees(), ws) };
                let v = computed_view(old(self).trees(), k);
                let origin = computed_origin(old(self).trees(), k, fallback_rect(), old(self).panel_height());
                let leaves = tree_leaves(v, origin, *side);
                &&& final(self).trees() == computed_trees(old(self).trees(), k)
                &&& if spec_solution_valid(leaves) {
                    &&& r.windows@ == leaves
                    &&& r.dividers@ == sort_bars(tree_bars(v, origin, *side))
                    &&& r.workspace_rect == origin
                } else {
                    &&& r.windows@ == grid_windows(fallback_rect(), leaves.len() as int, old(self).panel_height())
                    &&& r.dividers@.len() == 0
                    &&& r.workspace_rect == spec_origin(fallback_rect(), spec_hyprland_gaps(), old(self).panel_height())
                }
            }),
            final(self).owners() == old(self).owners(),
            final(self).next_split_id() == old(self).next_split_id(),
            final(self).panel_height() == old(self).panel_height(),
    {
        let monitor = self.monitor_for(ws);
        let fallback = Rect::new(0, 0, 1920, 1080);
        let solution = self.compute_for(ws, monitor, fallback, side);
        if !solution.is_valid() {
            let n = solution.windows.len();
            return self.safe_equal_grid(fallback, n, self.panel_height);
        }
        solution
    }

    /// The current layout of `ws` within the fallback rect, without the
    /// validity fallback.
    pub fn snapshot<F: Fn(i32, u32) -> i32>(&mut self, ws: WorkspaceIndex, side: &F) -> (r: LayoutSolution)
        requires
            old(self).wf(),
            side_fn_ok(*side),
            compute_fits(old(self).trees(), TreeKey { workspace: ws, monitor: workspace_monitor(old(self).trees(), ws) }, fallback_rect(), old(self).panel_height(), *side),
        ensures
            final(self).wf(),
            ({
                let k = TreeKey { workspace: ws, monitor: workspace_monitor(old(self).trees(), ws) };
                let v = computed_view(old(self).trees(), k);
                let origin = computed_origin(old(self).trees(), k, fallback_rect(), old(self).panel_height());
                &&& final(self).trees() == computed_trees(old(self).trees(), k)
                &&& r.windows@ == tree_leaves(v, origin, *side)
                &&& r.dividers@ == sort_bars(tree_bars(v, origin, *side))
                &&& r.workspace_rect == origin
            }),
            final(self).owners() == old(self).owners(),
            final(self).next_split_id() == old(self).next_split_id(),
            final(self).panel_height() == old(self).panel_height(),
    {
        let monitor = self.monitor_for(ws);
        let fallback = Rect::new(0, 0, 1920, 1080);
        self.compute_for(ws, monitor, fallback, side)
    }

    fn set_owner_exec(&mut self, w: WindowId, k: TreeKey)
        requires
            old(self).wf(),
        ensures
            final(self).wf(),
            final(self).owners() == set_owner(old(self).owners(), w, k),
            final(self).trees == old(self).trees,
            final(self).next_split_id == old(self).next_split_id,
            final(self).panel_height == old(self).panel_height,
    {
        proof {
            lemma_owner_pos(self.owners@, w);
        }
        match self.find_owner(w) {
            Some(p) => {
                self.owners.set(p, (w, k));
                assert forall|i: int, j: int| 0 <= i < j < self.owners@.len() implies self.owners@[i].0 != self.owners@[j].0 by {
                    assert(old(self).owners@[i].0 != old(self).owners@[j].0);
                }
            },
            None => {
                self.owners.push((w, k));
                assert forall|i: int, j: int| 0 <= i < j < self.owners@.len() implies self.owners@[i].0 != self.owners@[j].0 by {
                    if j == self.owners@.len() - 1 {
                        assert(old(self).owners@[i].0 != w);
                    } else {
                        assert(old(self).owners@[i].0 != old(self).owners@[j].0);
                    }
                }
            },
        }
        assert(self.trees() == old(self).trees());
        assert(forall|i: int, j: int| 0 <= i < j < self.trees().len() ==> self.trees()[i].0 != self.trees()[j].0);
    }

    /// Insert a window into the tree of `(ws, primary monitor)`. An empty
    /// tree becomes a leaf; otherwise the tree becomes an even horizontal
    /// split with the existing tree first and the new window second, so
    /// every window already tiled stays. The window's owner is recorded and
    /// a split id is consumed.
    pub fn insert_window(&mut self, ws: WorkspaceIndex, window: WindowId)
        requires
            old(self).wf(),
        ensures
            final(self).wf(),
            final(self).next_split_id() == next_split(old(self).next_split_id()),
            final(self).owners() == set_owner(old(self).owners(), window, TreeKey { workspace: ws, monitor: MonitorId(0) }),
            ({
                let k = TreeKey { workspace: ws, monitor: MonitorId(0) };
                let e = ensure_tree(old(self).trees(), k);
                let p = ensured_pos(old(self).trees(), k);
                final(self).trees() == e.update(p, (k, (
                    Some(inserted_root(e[p].1.0, window, SplitNodeId(final(self).next_split_id()))),
                    e[p].1.1,
                    e[p].1.2,
                    e[p].1.3,
                )))
            }),
            final(self).panel_height() == old(self).panel_height(),
    {
        let id = self.next_id();
        assert(self.trees() == old(self).trees());
        assert(self.owners() == old(self).owners());
        assert(forall|i: int, j: int| 0 <= i < j < self.trees().len() ==> self.trees()[i].0 != self.trees()[j].0);
        assert(forall|i: int, j: int| 0 <= i < j < self.owners().len() ==> self.owners()[i].0 != self.owners()[j].0);
        let key = TreeKey { workspace: ws, monitor: MonitorId::primary() };
        self.set_owner_exec(window, key);
        let p = self.ensure_tree_exec(key);
        let ghost mid = self.trees();
        let ghost mid_raw = self.trees@;
        proof {
            self.lemma_trees_all();
            lemma_tree_pos(old(self).trees(), key);
            assert(mid[p as int].0 == key);
        }
        let (k, mut tree) = self.take_tree(p);
        let root = tree.root.take();
        let new_root = match root {
            None => leaf(window),
            Some(existing) => TreeNode::Split(SplitNode::new(id, Direction::Horizontal, existing, leaf(window))),
        };
        tree.root = Some(new_root);
        self.restore_tree(p, (k, tree));
        proof {
            self.lemma_trees_all();
            assert(self.trees@ =~= mid_raw.update(p as int, (k, tree)));
            assert(self.trees() =~= mid.update(p as int, (key, tview(tree))));
            assert forall|a: int, b: int| 0 <= a < b < self.trees().len() implies self.trees()[a].0 != self.trees()[b].0 by {
                assert(mid[a].0 != mid[b].0);
                assert(self.trees()[a].0 == mid[a].0);
                assert(self.trees()[b].0 == mid[b].0);
            }
            assert(forall|a: int, b: int| 0 <= a < b < self.owners().len() ==> self.owners()[a].0 != self.owners()[b].0);
        }
    }

    /// Remove a window from the tree of its owner, collapsing splits left
    /// with one child; the owner entry is dropped.
    pub fn remove_window(&mut self, window: WindowId)
        requires
            old(self).wf(),
        ensures
            final(self).wf(),
            ({
                let p = owner_pos(old(self).owners(), window);
                if p >= 0 {
                    let k = old(self).owners()[p].1;
                    let q = tree_pos(old(self).trees(), k);
                    &&& final(self).owners() == old(self).owners().remove(p)
                    &&& final(self).trees() == if q >= 0 {
                        let v = old(self).trees()[q].1;
                        old(self).trees().update(q, (k, (
                            match v.0 {
                                Some(t) => collapse(t, window),
                                None => None,
                            },
                            v.1,
                            v.2,
                            v.3,
                        )))
                    } else {
                        old(self).trees()
                    }
                } else {
                    &&& final(self).owners() == old(self).owners()
                    &&& final(self).trees() == old(self).trees()
                }
            }),
            final(self).next_split_id() == old(self).next_split_id(),
            final(self).panel_height() == old(self).panel_height(),
    {
        proof {
            lemma_owner_pos(self.owners@, window);
        }
        let owner = match self.find_owner(window) {
            Some(p) => {
                let (_, k) = self.owners.remove(p);
                assert forall|i: int, j: int| 0 <= i < j < self.owners@.len() implies self.owners@[i].0 != self.owners@[j].0 by {
                    let oi = if i < p { i } else { i + 1 };
                    let oj = if j < p { j } else { j + 1 };
                    assert(old(self).owners@[oi].0 != old(self).owners@[oj].0);
                }
                Some(k)
            },
            None => None,
        };
        if let Some(k) = owner {
            proof {
                lemma_tree_pos(self.trees(), k);
                self.lemma_trees_all();
            }
            match self.find_tree(k) {
                Some(q) => {
                    let ghost mid = self.trees();
                    let ghost mid_raw = self.trees@;
                    proof {
                        assert(mid[q as int].0 == k);
                    }
                    let (kk, mut tree) = self.take_tree(q);
                    let root = tree.root.take();
                    tree.root = match root {
                        Some(r) => collapse_after_remove(r, window),
                        None => None,
                    };
                    self.restore_tree(q, (kk, tree));
                    proof {
                        self.lemma_trees_all();
                        assert(self.trees@ =~= mid_raw.update(q as int, (kk, tree)));
                        assert(self.trees() =~= mid.update(q as int, (k, tview(tree))));
                        assert forall|a: int, b: int| 0 <= a < b < self.trees().len() implies self.trees()[a].0 != self.trees()[b].0 by {
                            assert(mid[a].0 != mid[b].0);
                            assert(self.trees()[a].0 == mid[a].0);
                            assert(self.trees()[b].0 == mid[b].0);
                        }
                    }
                },
                None => {},
            }
        }
        assert(forall|a: int, b: int| 0 <= a < b < self.owners().len() ==> self.owners()[a].0 != self.owners()[b].0);
    }

    /// Apply a divider drag on the tree of `(ws, primary monitor)`.
    pub fn drag_divider(&mut self, ws: WorkspaceIndex, bar: SplitNodeId, new_ratio_bits: u32)
        requires
            old(self).wf(),
        ensures
            final(self).wf(),
            ({
                let k = TreeKey { workspace: ws, monitor: MonitorId(0) };
                let q = tree_pos(old(self).trees(), k);
                final(self).trees() == if q >= 0 {
                    let v = old(self).trees()[q].1;
                    old(self).trees().update(q, (k, (
                        match v.0 {
                            Some(t) => Some(with_ratio(t, bar, new_ratio_bits)),
                            None => None,
                        },
                        v.1,
                        v.2,
                        v.3,
                    )))
                } else {
                    old(self).trees()
                }
            }),
            final(self).owners() == old(self).owners(),
            final(self).next_split_id() == old(self).next_split_id(),
            final(self).panel_height() == old(self).panel_height(),
    {
        let key = TreeKey { workspace: ws, monitor: MonitorId::primary() };
        proof {
            lemma_tree_pos(self.trees(), key);
            self.lemma_trees_all();
        }
        match self.find_tree(key) {
            Some(q) => {
                let ghost mid = self.trees();
                let ghost mid_raw = self.trees@;
                proof {
                    assert(mid[q as int].0 == key);
                }
                let (kk, mut tree) = self.take_tree(q);
                match &mut tree.root {
                    Some(r) => apply_ratio(r, bar, new_ratio_bits),
                    None => {},
                }
                self.restore_tree(q, (kk, tree));
                proof {
                    self.lemma_trees_all();
                    assert(self.trees@ =~= mid_raw.update(q as int, (kk, tree)));
                    assert(self.trees() =~= mid.update(q as int, (key, tview(tree))));
                    assert forall|a: int, b: int| 0 <= a < b < self.trees().len() implies self.trees()[a].0 != self.trees()[b].0 by {
                        assert(mid[a].0 != mid[b].0);
                        assert(self.trees()[a].0 == mid[a].0);
                        assert(self.trees()[b].0 == mid[b].0);
                    }
                }
            },
            None => {},
        }
        assert(forall|a: int, b: int| 0 <= a < b < self.owners().len() ==> self.owners()[a].0 != self.owners()[b].0);
    }

    /// Set the gaps of the trees of `ws`: every tree keyed `(ws, m)`,
    /// where `m` is the monitor some tree is on, gets `gaps`.
    pub fn set_gaps(&mut self, ws: WorkspaceIndex, gaps: Gaps)
        requires
            old(self).wf(),
        ensures
            final(self).wf(),
            final(self).trees() == gapped(old(self).trees(), ws, gaps),
            final(self).owners() == old(self).owners(),
            final(self).next_split_id() == old(self).next_split_id(),
            final(self).panel_height() == old(self).panel_height(),
    {
        let ghost ts = self.trees();
        proof {
            self.lemma_trees_all();
        }
        let mut mons: Vec<MonitorId> = Vec::new();
        let mut i: usize = 0;
        while i < self.trees.len()
            invariant
                i <= self.trees@.len(),
                ts == self.trees(),
                ts.len() == self.trees@.len(),
                mons@.len() == i,
                forall|j: int| 0 <= j < i ==> mons@[j] == monitor_or_primary(#[trigger] ts[j].1.3),
            decreases self.trees@.len() - i,
        {
            proof {
                self.lemma_trees_index(i as int);
            }
            let m = match self.trees[i].1.monitor {
                Some(m) => m,
                None => MonitorId(0),
            };
            mons.push(m);
            i = i + 1;
        }
        let n = self.trees.len();
        let mut i: usize = 0;
        while i < n
            invariant
                n == ts.len(),
                i <= n,
                self.trees@.len() == n,
                self.trees().len() == n,
                mons@.len() == n,
                forall|j: int| 0 <= j < n ==> mons@[j] == monitor_or_primary(#[trigger] ts[j].1.3),
                forall|j: int| 0 <= j < i ==> self.trees()[j] == #[trigger] gapped(ts, ws, gaps)[j],
                forall|j: int| i <= j < n ==> self.trees()[j] == #[trigger] ts[j],
                self.owners == old(self).owners,
                self.next_split_id == old(self).next_split_id,
                self.panel_height == old(self).panel_height,
            decreases n - i,
        {
            proof {
                self.lemma_trees_all();
            }
            let key = self.trees[i].0;
            let mut found = false;
            let mut j: usize = 0;
            while j < n
                invariant
                    n == mons@.len(),
                    j <= n,
                    found <==> exists|q: int| 0 <= q < j && mons@[q] == key.monitor,
                decreases n - j,
            {
                if mons[j] == key.monitor {
                    found = true;
                }
                j = j + 1;
            }
            proof {
                let c = exists|q: int| 0 <= q < ts.len() && monitor_or_primary(ts[q].1.3) == ts[i as int].0.monitor;
                if found {
                    let q = choose|q: int| 0 <= q < n && mons@[q] == key.monitor;
                    assert(monitor_or_primary(ts[q].1.3) == ts[i as int].0.monitor);
                }
                if c {
                    let q = choose|q: int| 0 <= q < ts.len() && monitor_or_primary(ts[q].1.3) == ts[i as int].0.monitor;
                    assert(mons@[q] == key.monitor);
                }
                assert(found == c);
            }
            if key.workspace == ws && found {
                let ghost mid = self.trees();
                let ghost mid_raw = self.trees@;
                let (kk, mut tree) = self.take_tree(i);
                tree.gaps = gaps;
                self.restore_tree(i, (kk, tree));
                proof {
                    self.lemma_trees_all();
                    assert(self.trees@ =~= mid_raw.update(i as int, (kk, tree)));
                    assert(self.trees() =~= mid.update(i as int, (kk, tview(tree))));
                }
            }
            i = i + 1;
        }
        proof {
            assert(self.trees() =~= gapped(ts, ws, gaps));
            assert forall|a: int, b: int| 0 <= a < b < self.trees().len() implies self.trees()[a].0 != self.trees()[b].0 by {
                assert(self.trees()[a] == gapped(ts, ws, gaps)[a]);
                assert(self.trees()[b] == gapped(ts, ws, gaps)[b]);
                assert(ts[a].0 != ts[b].0);
            }
            assert(self.owners() == old(self).owners());
            assert(forall|a: int, b: int| 0 <= a < b < self.owners().len() ==> self.owners()[a].0 != self.owners()[b].0);
        }
    }

    /// Replace the monitor list after a hot-plug: every owned window that
    /// sits in a tree on a monitor no longer present (a tree some owner
    /// points at) is reassigned to the new primary monitor, keeping its
    /// workspace. The trees themselves are kept.
    pub fn replace_monitors(&mut self, monitors: Vec<MonitorDef>)
        requires
            old(self).wf(),
        ensures
            final(self).wf(),
            final(self).owners() == rehomed(old(self).trees(), old(self).owners(), monitors@),
            final(self).trees() == old(self).trees(),
            final(self).next_split_id() == old(self).next_split_id(),
            final(self).panel_height() == old(self).panel_height(),
    {
        let ghost ts = self.trees();
        let ghost os = self.owners@;
        let primary = primary_of(&monitors);
        let no = self.owners.len();
        let mut flags: Vec<bool> = Vec::new();
        let mut j: usize = 0;
        while j < no
            invariant
                j <= no,
                flags@.len() == j,
                forall|k: int| 0 <= k < j ==> !(#[trigger] flags@[k]),
            decreases no - j,
        {
            flags.push(false);
            j = j + 1;
        }
        proof {
            self.lemma_trees_all();
        }
        let nt = self.trees.len();
        let mut i: usize = 0;
        while i < nt
            invariant
                nt == ts.len(),
                ts == self.trees(),
                self.trees@.len() == nt,
                self.owners@ == os,
                no == os.len(),
                i <= nt,
                flags@.len() == no,
                forall|k: int| 0 <= k < no ==> (#[trigger] flags@[k] <==> exists|a: int, b: int|
                    0 <= a < i && 0 <= b < os.len() && stale(monitors@, ts[a].0.monitor) && os[b].1 == ts[a].0 && tree_holds(ts[a].1, os[k].0)),
                self.trees == old(self).trees,
                self.next_split_id == old(self).next_split_id,
                self.panel_height == old(self).panel_height,
            decreases nt - i,
        {
            proof {
                self.lemma_trees_index(i as int);
            }
            let key = self.trees[i].0;
            let st = is_stale(&monitors, key.monitor);
            let mut pointed = false;
            let mut b: usize = 0;
            while b < no
                invariant
                    no == os.len(),
                    self.owners@ == os,
                    b <= no,
                    pointed <==> exists|q: int| 0 <= q < b && os[q].1 == key,
                decreases no - b,
            {
                if self.owners[b].1 == key {
                    pointed = true;
                }
                b = b + 1;
            }
            if st && pointed {
                let mut k: usize = 0;
                while k < no
                    invariant
                        no == os.len(),
                        self.owners@ == os,
                        ts == self.trees(),
                        self.trees@.len() == nt,
                        i < nt,
                        k <= no,
                        flags@.len() == no,
                        st == stale(monitors@, ts[i as int].0.monitor),
                        st && pointed,
                        pointed <==> exists|q: int| 0 <= q < no && os[q].1 == key,
                        key == ts[i as int].0,
                        forall|c: int| 0 <= c < no ==> (#[trigger] flags@[c] <==> (exists|a: int, b: int|
                            0 <= a < i && 0 <= b < os.len() && stale(monitors@, ts[a].0.monitor) && os[b].1 == ts[a].0 && tree_holds(ts[a].1, os[c].0))
                            || (c < k && tree_holds(ts[i as int].1, os[c].0))),
                    decreases no - k,
                {
                    proof {
                        self.lemma_trees_index(i as int);
                    }
                    if tree_holds_exec(&self.trees[i].1, self.owners[k].0) {
                        flags.set(k, true);
                    }
                    k = k + 1;
                }
                proof {
                    let q = choose|q: int| 0 <= q < no && os[q].1 == key;
                    assert forall|c: int| 0 <= c < no implies (#[trigger] flags@[c] <==> exists|a: int, b: int|
                        0 <= a < i + 1 && 0 <= b < os.len() && stale(monitors@, ts[a].0.monitor) && os[b].1 == ts[a].0 && tree_holds(ts[a].1, os[c].0)) by {
                        if tree_holds(ts[i as int].1, os[c].0) {
                            assert(0 <= i < i + 1 && 0 <= q < os.len() && stale(monitors@, ts[i as int].0.monitor) && os[q].1 == ts[i as int].0);
                        }
                    }
                }
            } else {
                proof {
                    assert forall|c: int| 0 <= c < no implies (#[trigger] flags@[c] <==> exists|a: int, b: int|
                        0 <= a < i + 1 && 0 <= b < os.len() && stale(monitors@, ts[a].0.monitor) && os[b].1 == ts[a].0 && tree_holds(ts[a].1, os[c].0)) by {
                        if exists|a: int, b: int| 0 <= a < i + 1 && 0 <= b < os.len() && stale(monitors@, ts[a].0.monitor) && os[b].1 == ts[a].0 && tree_holds(ts[a].1, os[c].0) {
                            let (a, b) = choose|a: int, b: int| 0 <= a < i + 1 && 0 <= b < os.len() && stale(monitors@, ts[a].0.monitor) && os[b].1 == ts[a].0 && tree_holds(ts[a].1, os[c].0);
                            if a == i {
                                assert(os[b].1 == key);
                            }
                        }
                    }
                }
            }
            i = i + 1;
        }
        let mut j: usize = 0;
        while j < no
            invariant
                no == os.len(),
                j <= no,
                flags@.len() == no,
                self.owners@.len() == no,
                forall|k: int| 0 <= k < no ==> (#[trigger] flags@[k] <==> on_stale(ts, os, monitors@, os[k].0)),
                forall|k: int| 0 <= k < j ==> self.owners@[k] == #[trigger] rehomed(ts, os, monitors@)[k],
                forall|k: int| j <= k < no ==> self.owners@[k] == #[trigger] os[k],
                self.trees == old(self).trees,
                self.next_split_id == old(self).next_split_id,
                self.panel_height == old(self).panel_height,
                os == old(self).owners@,
                primary == new_primary(monitors@),
            decreases no - j,
        {
            if flags[j] {
                let (w, k) = self.owners[j];
                self.owners.set(j, (w, TreeKey { workspace: k.workspace, monitor: primary }));
            }
            j = j + 1;
        }
        proof {
            assert(self.owners@ =~= rehomed(ts, os, monitors@));
            assert forall|a: int, b: int| 0 <= a < b < self.owners().len() implies self.owners()[a].0 != self.owners()[b].0 by {
                assert(self.owners@[a] == rehomed(ts, os, monitors@)[a]);
                assert(self.owners@[b] == rehomed(ts, os, monitors@)[b]);
                assert(old(self).owners()[a].0 != old(self).owners()[b].0);
            }
            assert(self.trees() == old(self).trees());
            assert(forall|a: int, b: int| 0 <= a < b < self.trees().len() ==> self.trees()[a].0 != self.trees()[b].0);
        }
    }
}

/// Something the engine can place: a window and the workspace it is on.
pub trait WindowToAssociate {
    /// The workspace of the window.
    fn workspace(&self) -> WorkspaceIndex;
    /// The window.
    fn id(&self) -> WindowId;
}

impl WindowToAssociate for WindowSnapshot {
    fn workspace(&self) -> (r: WorkspaceIndex)
        ensures
            r == self.workspace,
    {
        self.workspace
    }

    fn id(&self) -> (r: WindowId)
        ensures
            r == self.id,
    {
        self.id
    }
}

impl WindowToAssociate for (WindowId, WorkspaceIndex) {
    fn workspace(&self) -> (r: WorkspaceIndex)
        ensures
            r == self.1,
    {
        self.1
    }

    fn id(&self) -> (r: WindowId)
        ensures
            r == self.0,
    {
        self.0
    }
}

} // verus!
