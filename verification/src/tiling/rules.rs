//! Layout decisions produced by the rules engine and consumed by the
//! tiling engine.

use vstd::prelude::*;
use crate::wm::WindowId;
use crate::workspace::WorkspaceIndex;

verus! {

/// What should happen to a window before the layout pass.
#[derive(Debug, Clone, Copy, PartialEq, Eq, Structural)]
pub enum WindowDisposition {
    /// Join the tiled tree on the current workspace.
    Tile,
    /// Leave the tree; the user may drag the window freely.
    Float,
    /// Cover the whole workspace.
    Fullscreen,
    /// Move to the workspace, then tile.
    TileOn(WorkspaceIndex),
    /// Move to the workspace, then float.
    FloatOn(WorkspaceIndex),
}

/// A rule of the rules engine.
#[derive(Debug)]
pub enum LayoutRule {
    /// Match by executable basename, ignoring ASCII case.
    Basename(String, WindowDisposition),
    /// Match by window class, ignoring ASCII case.
    Class(String, WindowDisposition),
    /// Match by a substring of the title.
    TitleContains(String, WindowDisposition),
    /// Match transient windows (dialogs).
    Transient(WindowDisposition),
    /// Applies when no other rule matched.
    Default(WindowDisposition),
}

impl Clone for LayoutRule {
    fn clone(&self) -> (r: Self)
        ensures
            r == *self,
    {
        match self {
            LayoutRule::Basename(s, d) => LayoutRule::Basename(s.clone(), *d),
            LayoutRule::Class(s, d) => LayoutRule::Class(s.clone(), *d),
            LayoutRule::TitleContains(s, d) => LayoutRule::TitleContains(s.clone(), *d),
            LayoutRule::Transient(d) => LayoutRule::Transient(*d),
            LayoutRule::Default(d) => LayoutRule::Default(*d),
        }
    }
}

/// The outcome of evaluating one window's rules.
#[derive(Debug)]
pub struct RuleDecision {
    pub window: WindowId,
    pub disposition: WindowDisposition,
    /// The rule that matched, kept for diagnostics.
    pub matched_rule: Option<LayoutRule>,
}

impl RuleDecision {
    /// Did a rule take part in the decision?
    pub fn engaged(&self) -> (r: bool)
        ensures
            r == self.matched_rule is Some,
    {
        self.matched_rule.is_some()
    }
}

} // verus!
