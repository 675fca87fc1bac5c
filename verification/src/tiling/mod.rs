//! Tiling: the geometry helpers, the LCRS tree of tiled windows, the
//! rule decisions the engine consumes and the engine itself.
//!
//! Split ratios are `f32` values carried as their bit patterns. The one
//! floating-point step of a layout, `floor(total * ratio)`, is supplied
//! by the caller as a *side function* `(total, ratio_bits) -> first side`;
//! everything else is integer arithmetic proved here.

use vstd::prelude::*;
use crate::wm::{Rect, WindowId, WindowMetadata, WindowSnapshot, ProcessInfo};

pub mod engine;
pub mod rules;
pub mod tree;

use crate::tiling::tree::{Direction, SplitBar};

verus! {

/// The value fits in `i32`.
pub open spec fn fits(v: int) -> bool {
    i32::MIN <= v <= i32::MAX
}

/// `max(v, 0)`.
pub open spec fn nonneg(v: int) -> int {
    if v > 0 {
        v
    } else {
        0
    }
}

/// A side function is total and deterministic.
pub open spec fn side_fn_ok<F: Fn(i32, u32) -> i32>(f: F) -> bool {
    &&& forall|t: i32, b: u32| call_requires(f, (t, b))
    &&& forall|t: i32, b: u32, s1: i32, s2: i32|
        call_ensures(f, (t, b), s1) && call_ensures(f, (t, b), s2) ==> s1 == s2
}

/// The first side a side function gives for `total` and `ratio_bits`.
pub open spec fn side_of<F: Fn(i32, u32) -> i32>(f: F, total: i32, ratio_bits: u32) -> i32 {
    choose|s: i32| call_ensures(f, (total, ratio_bits), s)
}

/// The value a deterministic side function returned is `side_of`.
pub proof fn lemma_side_of<F: Fn(i32, u32) -> i32>(f: F, total: i32, ratio_bits: u32, s: i32)
    requires
        side_fn_ok(f),
        call_ensures(f, (total, ratio_bits), s),
    ensures
        side_of(f, total, ratio_bits) == s,
{
}

/// Call a side function.
pub fn call_side<F: Fn(i32, u32) -> i32>(f: &F, total: i32, ratio_bits: u32) -> (r: i32)
    requires
        side_fn_ok(*f),
    ensures
        r == side_of(*f, total, ratio_bits),
{
    let r = f(total, ratio_bits);
    proof {
        lemma_side_of(*f, total, ratio_bits, r);
    }
    r
}

/// Layout result: one rect per tiled or floating window, the divider
/// handles, and the workspace rect the layout was solved for.
pub struct LayoutSolution {
    pub windows: Vec<(WindowId, Rect)>,
    pub dividers: Vec<SplitBar>,
    pub workspace_rect: Rect,
}

/// Two rectangles overlap iff both axes intersect with positive extent.
pub open spec fn spec_rects_overlap(a: Rect, b: Rect) -> bool {
    a.x < b.spec_right() && a.spec_right() > b.x && a.y < b.spec_bottom() && a.spec_bottom() > b.y
}

/// `rects_overlap`: both axes intersect with positive extent.
pub fn rects_overlap(a: Rect, b: Rect) -> (r: bool)
    requires
        a.edges_fit(),
        b.edges_fit(),
    ensures
        r == spec_rects_overlap(a, b),
{
    a.left() < b.right() && a.right() > b.left() && a.top() < b.bottom() && a.bottom() > b.top()
}

/// Every rect is valid and no two overlap.
pub open spec fn spec_solution_valid(ws: Seq<(WindowId, Rect)>) -> bool {
    &&& forall|i: int| 0 <= i < ws.len() ==> (#[trigger] ws[i]).1.spec_is_valid()
    &&& forall|i: int, j: int| 0 <= i < j < ws.len() ==> !spec_rects_overlap(#[trigger] ws[i].1, #[trigger] ws[j].1)
}

/// Every rect's edges fit in `i32`.
pub open spec fn all_edges_fit(ws: Seq<(WindowId, Rect)>) -> bool {
    forall|i: int| 0 <= i < ws.len() ==> (#[trigger] ws[i]).1.edges_fit()
}

impl LayoutSolution {
    /// `true` if no rect is degenerate and no two rects overlap.
    pub fn is_valid(&self) -> (r: bool)
        requires
            all_edges_fit(self.windows@),
        ensures
            r == spec_solution_valid(self.windows@),
    {
        let n = self.windows.len();
        let mut i: usize = 0;
        while i < n
            invariant
                n == self.windows@.len(),
                i <= n,
                forall|k: int| 0 <= k < i ==> (#[trigger] self.windows@[k]).1.spec_is_valid(),
            decreases n - i,
        {
            if !self.windows[i].1.is_valid() {
                return false;
            }
            i = i + 1;
        }
        let mut a: usize = 0;
        while a < n
            invariant
                n == self.windows@.len(),
                all_edges_fit(self.windows@),
                a <= n,
                forall|k: int| 0 <= k < n ==> (#[trigger] self.windows@[k]).1.spec_is_valid(),
                forall|p: int, q: int| 0 <= p < a && p < q < n ==> !spec_rects_overlap(#[trigger] self.windows@[p].1, #[trigger] self.windows@[q].1),
            decreases n - a,
        {
            let mut b: usize = a + 1;
            while b < n
                invariant
                    n == self.windows@.len(),
                    all_edges_fit(self.windows@),
                    a < n,
                    a + 1 <= b <= n,
                    forall|q: int| a < q < b ==> !spec_rects_overlap(self.windows@[a as int].1, #[trigger] self.windows@[q].1),
                decreases n - b,
            {
                assert(self.windows@[a as int].1.edges_fit());
                assert(self.windows@[b as int].1.edges_fit());
                if rects_overlap(self.windows[a].1, self.windows[b].1) {
                    return false;
                }
                b = b + 1;
            }
            a = a + 1;
        }
        true
    }
}

/// Gap configuration: outer gaps between workspace and windows, inner
/// gap between tiled siblings, and smart gaps (outer gaps dropped while
/// a single window is tiled).
#[derive(Debug, Clone, Copy, PartialEq, Eq, Structural)]
pub struct Gaps {
    pub outer_top: i32,
    pub outer_right: i32,
    pub outer_bottom: i32,
    pub outer_left: i32,
    pub inner: i32,
    pub smart_gaps: bool,
}

impl Default for Gaps {
    fn default() -> (r: Self)
        ensures
            r == (Gaps { outer_top: 0, outer_right: 0, outer_bottom: 0, outer_left: 0, inner: 6, smart_gaps: true }),
    {
        Gaps { outer_top: 0, outer_right: 0, outer_bottom: 0, outer_left: 0, inner: 6, smart_gaps: true }
    }
}

/// The Hyprland-style gap profile; the panel reserves the top stripe.
pub open spec fn spec_hyprland_gaps() -> Gaps {
    Gaps { outer_top: 0, outer_right: 6, outer_bottom: 6, outer_left: 6, inner: 6, smart_gaps: true }
}

impl Gaps {
    /// The Hyprland-style gap profile.
    pub fn hyprland_defaults() -> (r: Gaps)
        ensures
            r == spec_hyprland_gaps(),
    {
        Gaps { outer_top: 0, outer_right: 6, outer_bottom: 6, outer_left: 6, inner: 6, smart_gaps: true }
    }
}

/// The intermediate values of `compute_workspace_origin` fit in `i32`.
pub open spec fn origin_fits(w: Rect, g: Gaps, ph: i32) -> bool {
    let ah = nonneg(w.height - ph);
    &&& fits(w.y + ph)
    &&& fits(w.height - ph)
    &&& fits(w.x + g.outer_left)
    &&& fits(w.y + ph + g.outer_top)
    &&& fits(w.width - g.outer_left)
    &&& fits(w.width - g.outer_left - g.outer_right)
    &&& fits(ah - g.outer_top)
    &&& fits(ah - g.outer_top - g.outer_bottom)
}

/// The workspace area left for tiling: the panel stripe of height `ph`
/// is taken off the top, then the outer gaps; extents never go negative.
pub open spec fn spec_origin(w: Rect, g: Gaps, ph: i32) -> Rect {
    let ah = nonneg(w.height - ph);
    Rect {
        x: (w.x + g.outer_left) as i32,
        y: (w.y + ph + g.outer_top) as i32,
        width: nonneg(w.width - g.outer_left - g.outer_right) as i32,
        height: nonneg(ah - g.outer_top - g.outer_bottom) as i32,
    }
}

/// `max(v, 0)`.
pub fn max0(v: i32) -> (r: i32)
    ensures
        r == nonneg(v as int),
{
    if v > 0 {
        v
    } else {
        0
    }
}

/// The rect the tiled tree occupies within `workspace`.
pub fn compute_workspace_origin(workspace: Rect, gaps: &Gaps, panel_height: i32) -> (r: Rect)
    requires
        origin_fits(workspace, *gaps, panel_height),
    ensures
        r == spec_origin(workspace, *gaps, panel_height),
{
    let after_panel = Rect::new(
        workspace.x,
        workspace.y + panel_height,
        workspace.width,
        max0(workspace.height - panel_height),
    );
    Rect::new(
        after_panel.x + gaps.outer_left,
        after_panel.y + gaps.outer_top,
        max0(after_panel.width - gaps.outer_left - gaps.outer_right),
        max0(after_panel.height - gaps.outer_top - gaps.outer_bottom),
    )
}

/// The length shared by the two children of a split: the parent's extent
/// along the split axis minus the inner gap.
pub open spec fn spec_split_total(parent: Rect, direction: Direction, inner_gap: i32) -> int {
    match direction {
        Direction::Horizontal => parent.width - inner_gap,
        Direction::Vertical => parent.height - inner_gap,
    }
}

/// The arithmetic of a split with first side `fs` fits in `i32`.
pub open spec fn split_fits(parent: Rect, direction: Direction, fs: i32, inner_gap: i32) -> bool {
    &&& fits(spec_split_total(parent, direction, inner_gap))
    &&& match direction {
        Direction::Horizontal => {
            &&& fits(parent.x + fs)
            &&& fits(parent.x + fs + inner_gap)
            &&& fits(parent.width - fs)
            &&& fits(parent.width - fs - inner_gap)
        },
        Direction::Vertical => {
            &&& fits(parent.y + fs)
            &&& fits(parent.y + fs + inner_gap)
            &&& fits(parent.height - fs)
            &&& fits(parent.height - fs - inner_gap)
        },
    }
}

/// The two child rects of a split whose first side is `fs`: the first
/// child takes `fs` (never negative), the second starts after the inner
/// gap and takes the rest.
pub open spec fn spec_split_at(parent: Rect, direction: Direction, fs: i32, inner_gap: i32) -> (Rect, Rect) {
    match direction {
        Direction::Horizontal => (
            Rect { x: parent.x, y: parent.y, width: nonneg(fs as int) as i32, height: parent.height },
            Rect {
                x: (parent.x + fs + inner_gap) as i32,
                y: parent.y,
                width: nonneg(parent.width - fs - inner_gap) as i32,
                height: parent.height,
            },
        ),
        Direction::Vertical => (
            Rect { x: parent.x, y: parent.y, width: parent.width, height: nonneg(fs as int) as i32 },
            Rect {
                x: parent.x,
                y: (parent.y + fs + inner_gap) as i32,
                width: parent.width,
                height: nonneg(parent.height - fs - inner_gap) as i32,
            },
        ),
    }
}

/// The length a split shares between its children.
pub fn split_total(parent: Rect, direction: Direction, inner_gap: i32) -> (r: i32)
    requires
        fits(spec_split_total(parent, direction, inner_gap)),
    ensures
        r == spec_split_total(parent, direction, inner_gap),
{
    match direction {
        Direction::Horizontal => parent.width - inner_gap,
        Direction::Vertical => parent.height - inner_gap,
    }
}

/// Split `parent` once the first side is known.
pub fn split_rect_at(parent: Rect, direction: Direction, first_side: i32, inner_gap: i32) -> (r: (Rect, Rect))
    requires
        split_fits(parent, direction, first_side, inner_gap),
    ensures
        r == spec_split_at(parent, direction, first_side, inner_gap),
{
    match direction {
        Direction::Horizontal => {
            let left = Rect::new(parent.x, parent.y, max0(first_side), parent.height);
            let right = Rect::new(
                parent.x + first_side + inner_gap,
                parent.y,
                max0(parent.width - first_side - inner_gap),
                parent.height,
            );
            (left, right)
        },
        Direction::Vertical => {
            let top = Rect::new(parent.x, parent.y, parent.width, max0(first_side));
            let bottom = Rect::new(
                parent.x,
                parent.y + first_side + inner_gap,
                parent.width,
                max0(parent.height - first_side - inner_gap),
            );
            (top, bottom)
        },
    }
}

/// Split `parent` along `direction` at `ratio_bits`: the first side is
/// `side(total, ratio_bits)`, where `total` is the extent minus the gap.
pub fn split_rect<F: Fn(i32, u32) -> i32>(parent: Rect, direction: Direction, ratio_bits: u32, inner_gap: i32, side: &F) -> (r: (Rect, Rect))
    requires
        side_fn_ok(*side),
        fits(spec_split_total(parent, direction, inner_gap)),
        split_fits(parent, direction, side_of(*side, spec_split_total(parent, direction, inner_gap) as i32, ratio_bits), inner_gap),
    ensures
        r == spec_split_at(parent, direction, side_of(*side, spec_split_total(parent, direction, inner_gap) as i32, ratio_bits), inner_gap),
{
    let total = split_total(parent, direction, inner_gap);
    let fs = call_side(side, total, ratio_bits);
    split_rect_at(parent, direction, fs, inner_gap)
}

/// Floating windows keep their own rect outside the tree.
pub struct TiledWindow {
    pub id: WindowId,
    pub rect: Rect,
    pub fullscreen: bool,
}

impl Clone for TiledWindow {
    fn clone(&self) -> (r: Self)
        ensures
            r == *self,
    {
        TiledWindow { id: self.id, rect: self.rect, fullscreen: self.fullscreen }
    }
}

/// The metadata a snapshot stands for during a recalculation: the
/// process path and basename are unknown and the window is not tiled.
pub open spec fn stands_for(m: WindowMetadata, s: WindowSnapshot) -> bool {
    &&& m.id == s.id
    &&& m.process.pid == s.pid
    &&& m.process.exe_path is None
    &&& m.process.exe_basename@.len() == 0
    &&& m.title == s.title
    &&& m.class == s.class
    &&& m.state == s.state
    &&& m.rect == s.rect
    &&& m.workspace == s.workspace
    &&& m.monitor == s.monitor
    &&& m.z_order == s.z_order
    &&& !m.tiled
}

/// The metadata standing for one snapshot.
pub fn metadata_from_snapshot(s: &WindowSnapshot) -> (r: WindowMetadata)
    ensures
        stands_for(r, *s),
{
    WindowMetadata {
        id: s.id,
        process: ProcessInfo { pid: s.pid, exe_path: None, exe_basename: String::new() },
        title: s.title.clone(),
        class: s.class.clone(),
        state: s.state,
        rect: s.rect,
        workspace: s.workspace,
        monitor: s.monitor,
        z_order: s.z_order,
        tiled: false,
    }
}

/// Convert tracked windows into the working set of one recalculation.
pub fn working_set(snapshots: &[WindowSnapshot]) -> (r: Vec<WindowMetadata>)
    ensures
        r@.len() == snapshots@.len(),
        forall|i: int| 0 <= i < r@.len() ==> stands_for(#[trigger] r@[i], snapshots@[i]),
{
    let mut out: Vec<WindowMetadata> = Vec::new();
    let mut i: usize = 0;
    while i < snapshots.len()
        invariant
            i <= snapshots@.len(),
            out@.len() == i,
            forall|k: int| 0 <= k < i ==> stands_for(#[trigger] out@[k], snapshots@[k]),
        decreases snapshots@.len() - i,
    {
        out.push(metadata_from_snapshot(&snapshots[i]));
        i = i + 1;
    }
    out
}

/// A split with a non-negative first side and a non-negative inner gap
/// that fit the parent tiles it: the two children do not overlap, the first
/// starts at the parent's origin, the second starts exactly one gap after
/// the first ends, and the second ends where the parent ends.
pub proof fn lemma_split_tiles(parent: Rect, direction: Direction, fs: i32, inner_gap: i32)
    requires
        split_fits(parent, direction, fs, inner_gap),
        0 <= fs,
        0 <= inner_gap,
        fs + inner_gap <= spec_split_total(parent, direction, 0),
    ensures
        ({
            let (a, b) = spec_split_at(parent, direction, fs, inner_gap);
            &&& !spec_rects_overlap(a, b)
            &&& a.x == parent.x && a.y == parent.y
            &&& b.spec_right() == parent.spec_right()
            &&& b.spec_bottom() == parent.spec_bottom()
            &&& match direction {
                Direction::Horizontal => b.x == a.spec_right() + inner_gap && a.spec_bottom() == parent.spec_bottom(),
                Direction::Vertical => b.y == a.spec_bottom() + inner_gap && a.spec_right() == parent.spec_right(),
            }
        }),
{
}

/// The tiled area lies inside the workspace, below the panel stripe, when
/// the gaps are non-negative and fit the workspace.
pub proof fn lemma_origin_below_panel(w: Rect, g: Gaps, ph: i32)
    requires
        0 <= ph <= w.height,
        0 <= g.outer_left,
        0 <= g.outer_right,
        0 <= g.outer_top,
        0 <= g.outer_bottom,
        g.outer_left + g.outer_right <= w.width,
        g.outer_top + g.outer_bottom <= w.height - ph,
        origin_fits(w, g, ph),
    ensures
        ({
            let o = spec_origin(w, g, ph);
            &&& o.y >= w.y + ph
            &&& o.x >= w.x
            &&& o.spec_right() <= w.spec_right()
            &&& o.spec_bottom() <= w.spec_bottom()
            &&& o.width >= 0 && o.height >= 0
        }),
{
}

} // verus!
