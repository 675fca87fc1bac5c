//! The window registry: every tracked window, the monitors, the focus
//! pointer and the queue of applied events. Each change is driven by a
//! [`WindowEvent`] delivered by the platform hook.

use vstd::prelude::*;
use crate::seqs::{first_index, lemma_first_index, lemma_first_index_at, lemma_first_index_none};
use crate::text::{all_white, is_blank, owned};
use crate::workspace::WorkspaceIndex;

verus! {

/// A window handle. The raw value `0` stands for "no window" (the desktop).
#[derive(Debug, Clone, Copy, PartialEq, Eq, Hash, Structural)]
pub struct WindowId(pub u64);

impl WindowId {
    /// The raw handle value.
    pub open spec fn raw(self) -> u64 {
        self.0
    }

    /// The "no window" sentinel.
    pub fn none() -> (r: WindowId)
        ensures
            r.raw() == 0,
    {
        WindowId(0)
    }

    /// Wrap a raw handle value.
    pub fn new(hwnd: u64) -> (r: WindowId)
        ensures
            r.raw() == hwnd,
    {
        WindowId(hwnd)
    }

    /// The raw handle value.
    pub fn get(self) -> (r: u64)
        ensures
            r == self.raw(),
    {
        self.0
    }

    /// `true` for the sentinel.
    pub fn is_none(self) -> (r: bool)
        ensures
            r == (self.raw() == 0),
    {
        self.0 == 0
    }
}

/// A window rectangle in screen pixels.
#[derive(Debug, Clone, Copy, PartialEq, Eq, Hash, Default, Structural)]
pub struct Rect {
    pub x: i32,
    pub y: i32,
    pub width: i32,
    pub height: i32,
}

impl Rect {
    /// Build a rectangle.
    pub fn new(x: i32, y: i32, width: i32, height: i32) -> (r: Rect)
        ensures
            r == (Rect { x, y, width, height }),
    {
        Rect { x, y, width, height }
    }

    /// Build from `(left, top, right, bottom)`.
    pub fn from_ltrb(left: i32, top: i32, right: i32, bottom: i32) -> (r: Rect)
        requires
            i32::MIN <= right - left <= i32::MAX,
            i32::MIN <= bottom - top <= i32::MAX,
        ensures
            r == (Rect { x: left, y: top, width: (right - left) as i32, height: (bottom - top) as i32 }),
    {
        Rect { x: left, y: top, width: right - left, height: bottom - top }
    }

    /// Right edge as a mathematical integer.
    pub open spec fn spec_right(self) -> int {
        self.x + self.width
    }

    /// Bottom edge as a mathematical integer.
    pub open spec fn spec_bottom(self) -> int {
        self.y + self.height
    }

    /// The edges fit in `i32`.
    pub open spec fn edges_fit(self) -> bool {
        i32::MIN <= self.spec_right() <= i32::MAX && i32::MIN <= self.spec_bottom() <= i32::MAX
    }

    /// Left edge.
    pub fn left(&self) -> (r: i32)
        ensures
            r == self.x,
    {
        self.x
    }

    /// Top edge.
    pub fn top(&self) -> (r: i32)
        ensures
            r == self.y,
    {
        self.y
    }

    /// Right edge.
    pub fn right(&self) -> (r: i32)
        requires
            i32::MIN <= self.spec_right() <= i32::MAX,
        ensures
            r == self.spec_right(),
    {
        self.x + self.width
    }

    /// Bottom edge.
    pub fn bottom(&self) -> (r: i32)
        requires
            i32::MIN <= self.spec_bottom() <= i32::MAX,
        ensures
            r == self.spec_bottom(),
    {
        self.y + self.height
    }

    /// Signed area.
    pub fn area(&self) -> (r: i64)
        ensures
            r == self.width * self.height,
    {
        proof {
            assert(-2147483648 * 2147483647 <= self.width * self.height <= 2147483648 * 2147483648)
                by (nonlinear_arith)
                requires
                    i32::MIN <= self.width <= i32::MAX,
                    i32::MIN <= self.height <= i32::MAX,
            {
            }
        }
        (self.width as i64) * (self.height as i64)
    }

    /// Positive width and height.
    pub open spec fn spec_is_valid(self) -> bool {
        self.width > 0 && self.height > 0
    }

    /// `true` if both extents are positive.
    pub fn is_valid(&self) -> (r: bool)
        ensures
            r == self.spec_is_valid(),
    {
        self.width > 0 && self.height > 0
    }
}

/// The longest title kept, in characters.
pub const TITLE_MAX_CHARS: usize = 512;

/// What `WindowTitle::new` keeps of a raw title: titles longer than
/// 512 characters are cut to their first 511.
pub open spec fn truncated_title(s: Seq<char>) -> Seq<char> {
    if s.len() > 512 {
        s.subrange(0, 511)
    } else {
        s
    }
}

/// A window title of bounded length.
#[derive(Debug, PartialEq, Eq, Hash)]
pub struct WindowTitle(String);

impl Clone for WindowTitle {
    fn clone(&self) -> (r: Self)
        ensures
            r == *self,
    {
        WindowTitle(self.0.clone())
    }
}

impl WindowTitle {
    /// The characters of the title.
    pub closed spec fn chars(self) -> Seq<char> {
        self.0@
    }

    /// Build a title, cutting titles longer than 512 characters to 511.
    pub fn new(s: String) -> (r: WindowTitle)
        ensures
            r.chars() == truncated_title(s@),
    {
        let n = s.as_str().unicode_len();
        if n > TITLE_MAX_CHARS {
            let cut = s.as_str().substring_char(0, 511);
            WindowTitle(owned(cut))
        } else {
            WindowTitle(s)
        }
    }

    /// The title as a string slice.
    pub fn as_str(&self) -> (r: &str)
        ensures
            r@ == self.chars(),
    {
        self.0.as_str()
    }

    /// `true` if the title is empty or white space only.
    pub fn is_empty(&self) -> (r: bool)
        ensures
            r == all_white(self.chars()),
    {
        is_blank(self.0.as_str())
    }
}

/// Window state flags: a set of bits, one per flag.
#[derive(Debug, Clone, Copy, PartialEq, Eq, Hash, Structural)]
pub struct WindowState {
    pub bits: u32,
}

impl WindowState {
    /// The `VISIBLE` flag.
    pub fn visible() -> (r: WindowState)
        ensures
            r.bits == 0b0000_0001,
    {
        WindowState { bits: 0b0000_0001 }
    }

    /// The `MINIMIZED` flag.
    pub fn minimized() -> (r: WindowState)
        ensures
            r.bits == 0b0000_0010,
    {
        WindowState { bits: 0b0000_0010 }
    }

    /// The `MAXIMIZED` flag.
    pub fn maximized() -> (r: WindowState)
        ensures
            r.bits == 0b0000_0100,
    {
        WindowState { bits: 0b0000_0100 }
    }

    /// The `RESIZABLE` flag.
    pub fn resizable() -> (r: WindowState)
        ensures
            r.bits == 0b0000_1000,
    {
        WindowState { bits: 0b0000_1000 }
    }

    /// The `TILED` flag.
    pub fn tiled() -> (r: WindowState)
        ensures
            r.bits == 0b0001_0000,
    {
        WindowState { bits: 0b0001_0000 }
    }

    /// The `FLOATING` flag.
    pub fn floating() -> (r: WindowState)
        ensures
            r.bits == 0b0010_0000,
    {
        WindowState { bits: 0b0010_0000 }
    }

    /// The `FULLSCREEN` flag.
    pub fn fullscreen() -> (r: WindowState)
        ensures
            r.bits == 0b0100_0000,
    {
        WindowState { bits: 0b0100_0000 }
    }

    /// The `ATTACHED` flag.
    pub fn attached() -> (r: WindowState)
        ensures
            r.bits == 0b1000_0000,
    {
        WindowState { bits: 0b1000_0000 }
    }

    /// The `HIDDEN_FROM_PANEL` flag.
    pub fn hidden_from_panel() -> (r: WindowState)
        ensures
            r.bits == 0b1_0000_0000,
    {
        WindowState { bits: 0b1_0000_0000 }
    }

    /// All flags of `other` are set in `self`.
    pub open spec fn spec_contains(self, other: WindowState) -> bool {
        self.bits & other.bits == other.bits
    }

    /// `self` with the flags of `other` switched on or off.
    pub open spec fn spec_set(self, other: WindowState, value: bool) -> WindowState {
        if value {
            WindowState { bits: self.bits | other.bits }
        } else {
            WindowState { bits: self.bits & !other.bits }
        }
    }

    /// The empty set of flags.
    pub fn empty() -> (r: WindowState)
        ensures
            r.bits == 0,
    {
        WindowState { bits: 0 }
    }

    /// The raw bits.
    pub fn bits(&self) -> (r: u32)
        ensures
            r == self.bits,
    {
        self.bits
    }

    /// All flags of `other` are set in `self`.
    pub fn contains(&self, other: WindowState) -> (r: bool)
        ensures
            r == self.spec_contains(other),
    {
        self.bits & other.bits == other.bits
    }

    /// Switch the flags of `other` on or off.
    pub fn set(&mut self, other: WindowState, value: bool)
        ensures
            *final(self) == old(self).spec_set(other, value),
    {
        if value {
            self.bits = self.bits | other.bits;
        } else {
            self.bits = self.bits & !other.bits;
        }
    }

    /// The union of two flag sets.
    pub fn union(self, other: WindowState) -> (r: WindowState)
        ensures
            r.bits == self.bits | other.bits,
    {
        WindowState { bits: self.bits | other.bits }
    }
}

/// What the rules engine and the panel need to know of a process.
#[derive(Debug, PartialEq, Eq, Hash)]
pub struct ProcessInfo {
    pub pid: u32,
    pub exe_path: Option<String>,
    pub exe_basename: String,
}

impl Clone for ProcessInfo {
    fn clone(&self) -> (r: Self)
        ensures
            r == *self,
    {
        let exe_path = match &self.exe_path {
            Some(p) => Some(p.clone()),
            None => None,
        };
        ProcessInfo { pid: self.pid, exe_path, exe_basename: self.exe_basename.clone() }
    }
}

/// A monitor id. Monitor order is not assumed stable across hot-plugs.
#[derive(Debug, Clone, Copy, PartialEq, Eq, Hash, Structural)]
pub struct MonitorId(pub u32);

impl MonitorId {
    /// The primary monitor.
    pub fn primary() -> (r: MonitorId)
        ensures
            r == MonitorId(0),
    {
        MonitorId(0)
    }

    /// Wrap a raw id.
    pub fn new(raw: u32) -> (r: MonitorId)
        ensures
            r == MonitorId(raw),
    {
        MonitorId(raw)
    }
}

/// One tracked window, owned by the [`Registry`].
#[derive(Debug)]
pub struct WindowMetadata {
    pub id: WindowId,
    pub process: ProcessInfo,
    pub title: WindowTitle,
    pub class: String,
    pub state: WindowState,
    pub rect: Rect,
    pub workspace: WorkspaceIndex,
    pub monitor: MonitorId,
    pub z_order: u32,
    pub tiled: bool,
}

impl Clone for WindowMetadata {
    fn clone(&self) -> (r: Self)
        ensures
            r == *self,
    {
        WindowMetadata {
            id: self.id,
            process: self.process.clone(),
            title: self.title.clone(),
            class: self.class.clone(),
            state: self.state,
            rect: self.rect,
            workspace: self.workspace,
            monitor: self.monitor,
            z_order: self.z_order,
            tiled: self.tiled,
        }
    }
}

/// A cheap copy of a tracked window, handed to readers.
#[derive(Debug)]
pub struct WindowSnapshot {
    pub id: WindowId,
    pub pid: u32,
    pub title: WindowTitle,
    pub class: String,
    pub state: WindowState,
    pub rect: Rect,
    pub workspace: WorkspaceIndex,
    pub monitor: MonitorId,
    pub z_order: u32,
}

impl Clone for WindowSnapshot {
    fn clone(&self) -> (r: Self)
        ensures
            r == *self,
    {
        WindowSnapshot {
            id: self.id,
            pid: self.pid,
            title: self.title.clone(),
            class: self.class.clone(),
            state: self.state,
            rect: self.rect,
            workspace: self.workspace,
            monitor: self.monitor,
            z_order: self.z_order,
        }
    }
}

/// The snapshot of a tracked window.
pub open spec fn snapshot_of(m: WindowMetadata) -> WindowSnapshot {
    WindowSnapshot {
        id: m.id,
        pid: m.process.pid,
        title: m.title,
        class: m.class,
        state: m.state,
        rect: m.rect,
        workspace: m.workspace,
        monitor: m.monitor,
        z_order: m.z_order,
    }
}

impl WindowSnapshot {
    /// The snapshot of a tracked window.
    pub fn from_metadata(meta: &WindowMetadata) -> (r: WindowSnapshot)
        ensures
            r == snapshot_of(*meta),
    {
        WindowSnapshot {
            id: meta.id,
            pid: meta.process.pid,
            title: meta.title.clone(),
            class: meta.class.clone(),
            state: meta.state,
            rect: meta.rect,
            workspace: meta.workspace,
            monitor: meta.monitor,
            z_order: meta.z_order,
        }
    }
}

/// A monitor definition.
#[derive(Debug)]
pub struct MonitorDef {
    pub id: MonitorId,
    pub friendly_name: String,
    pub rect: Rect,
    pub dpi: u32,
    pub primary: bool,
}

impl Clone for MonitorDef {
    fn clone(&self) -> (r: Self)
        ensures
            r == *self,
    {
        MonitorDef {
            id: self.id,
            friendly_name: self.friendly_name.clone(),
            rect: self.rect,
            dpi: self.dpi,
            primary: self.primary,
        }
    }
}

/// Window events, applied one by one in arrival order.
#[derive(Debug)]
pub enum WindowEvent {
    Created(WindowMetadata),
    Destroyed { id: WindowId },
    Focused { id: WindowId },
    TitleChanged { id: WindowId, title: WindowTitle },
    MovedOrResized { id: WindowId, rect: Rect },
    Minimized { id: WindowId },
    Restored { id: WindowId },
    Maximized { id: WindowId },
    WorkspacedChanged { id: WindowId, from: WorkspaceIndex, to: WorkspaceIndex },
    MonitorChanged { id: WindowId, from: MonitorId, to: MonitorId },
    Hidden { id: WindowId },
    Shown { id: WindowId },
}

impl Clone for WindowEvent {
    fn clone(&self) -> (r: Self)
        ensures
            r == *self,
    {
        match self {
            WindowEvent::Created(m) => WindowEvent::Created(m.clone()),
            WindowEvent::Destroyed { id } => WindowEvent::Destroyed { id: *id },
            WindowEvent::Focused { id } => WindowEvent::Focused { id: *id },
            WindowEvent::TitleChanged { id, title } => WindowEvent::TitleChanged { id: *id, title: title.clone() },
            WindowEvent::MovedOrResized { id, rect } => WindowEvent::MovedOrResized { id: *id, rect: *rect },
            WindowEvent::Minimized { id } => WindowEvent::Minimized { id: *id },
            WindowEvent::Restored { id } => WindowEvent::Restored { id: *id },
            WindowEvent::Maximized { id } => WindowEvent::Maximized { id: *id },
            WindowEvent::WorkspacedChanged { id, from, to } => WindowEvent::WorkspacedChanged { id: *id, from: *from, to: *to },
            WindowEvent::MonitorChanged { id, from, to } => WindowEvent::MonitorChanged { id: *id, from: *from, to: *to },
            WindowEvent::Hidden { id } => WindowEvent::Hidden { id: *id },
            WindowEvent::Shown { id } => WindowEvent::Shown { id: *id },
        }
    }
}


// =====================================================================
// Registry
// =====================================================================

/// The window has the id `id`.
pub open spec fn has_window_id(id: WindowId) -> spec_fn(WindowMetadata) -> bool {
    |m: WindowMetadata| m.id == id
}

/// The monitor has the id `id`.
pub open spec fn has_monitor_id(id: MonitorId) -> spec_fn(MonitorDef) -> bool {
    |m: MonitorDef| m.id == id
}

/// Position of the window `id` in `ws`, or `-1`.
pub open spec fn window_pos(ws: Seq<WindowMetadata>, id: WindowId) -> int {
    first_index(ws, has_window_id(id))
}

/// Position of the monitor `id` in `ms`, or `-1`.
pub open spec fn monitor_pos(ms: Seq<MonitorDef>, id: MonitorId) -> int {
    first_index(ms, has_monitor_id(id))
}

/// What a search for a window id tells about its position.
pub proof fn lemma_window_pos(ws: Seq<WindowMetadata>, id: WindowId)
    ensures
        -1 <= window_pos(ws, id) < ws.len(),
        window_pos(ws, id) == -1 <==> (forall|j: int| 0 <= j < ws.len() ==> (#[trigger] ws[j]).id != id),
        window_pos(ws, id) >= 0 ==> ws[window_pos(ws, id)].id == id,
        forall|j: int| 0 <= j < window_pos(ws, id) ==> (#[trigger] ws[j]).id != id,
{
    lemma_first_index(ws, has_window_id(id));
}

/// What a search for a monitor id tells about its position.
pub proof fn lemma_monitor_pos(ms: Seq<MonitorDef>, id: MonitorId)
    ensures
        -1 <= monitor_pos(ms, id) < ms.len(),
        monitor_pos(ms, id) == -1 <==> (forall|j: int| 0 <= j < ms.len() ==> (#[trigger] ms[j]).id != id),
        monitor_pos(ms, id) >= 0 ==> ms[monitor_pos(ms, id)].id == id,
        forall|j: int| 0 <= j < monitor_pos(ms, id) ==> (#[trigger] ms[j]).id != id,
{
    lemma_first_index(ms, has_monitor_id(id));
}

/// No id occurs twice.
pub open spec fn unique_windows(ws: Seq<WindowMetadata>) -> bool {
    forall|i: int, j: int| 0 <= i < j < ws.len() ==> ws[i].id != ws[j].id
}

/// No monitor id occurs twice.
pub open spec fn unique_monitors(ms: Seq<MonitorDef>) -> bool {
    forall|i: int, j: int| 0 <= i < j < ms.len() ==> ms[i].id != ms[j].id
}

/// The z-order counter after one step (wrapping).
pub open spec fn next_z(z: u32) -> u32 {
    if z == u32::MAX {
        0
    } else {
        (z + 1) as u32
    }
}

/// Insert or replace a window: an existing id keeps its position.
pub open spec fn upsert_window(ws: Seq<WindowMetadata>, m: WindowMetadata) -> Seq<WindowMetadata> {
    let p = window_pos(ws, m.id);
    if p >= 0 {
        ws.update(p, m)
    } else {
        ws.push(m)
    }
}

/// Insert or replace a monitor: an existing id keeps its position.
pub open spec fn upsert_monitor(ms: Seq<MonitorDef>, m: MonitorDef) -> Seq<MonitorDef> {
    let p = monitor_pos(ms, m.id);
    if p >= 0 {
        ms.update(p, m)
    } else {
        ms.push(m)
    }
}

/// The window an event changes in place, if it is one of those events.
pub open spec fn modified_target(ev: WindowEvent) -> Option<WindowId> {
    match ev {
        WindowEvent::TitleChanged { id, .. } => Some(id),
        WindowEvent::MovedOrResized { id, .. } => Some(id),
        WindowEvent::Minimized { id } => Some(id),
        WindowEvent::Restored { id } => Some(id),
        WindowEvent::Maximized { id } => Some(id),
        WindowEvent::WorkspacedChanged { id, .. } => Some(id),
        WindowEvent::MonitorChanged { id, .. } => Some(id),
        WindowEvent::Hidden { id } => Some(id),
        WindowEvent::Shown { id } => Some(id),
        _ => None,
    }
}

/// The window an event is about (the sentinel for none).
pub open spec fn event_subject(ev: WindowEvent) -> WindowId {
    match ev {
        WindowEvent::Created(meta) => meta.id,
        WindowEvent::Destroyed { id } => id,
        WindowEvent::Focused { id } => id,
        _ => match modified_target(ev) {
            Some(id) => id,
            None => WindowId(0),
        },
    }
}

/// How an in-place event changes the window it targets.
pub open spec fn modify(m: WindowMetadata, ev: WindowEvent) -> WindowMetadata {
    match ev {
        WindowEvent::TitleChanged { title, .. } => WindowMetadata { title, ..m },
        WindowEvent::MovedOrResized { rect, .. } => WindowMetadata { rect, ..m },
        WindowEvent::Minimized { .. } => WindowMetadata { state: m.state.spec_set(WindowState { bits: 0b10 }, true), ..m },
        WindowEvent::Restored { .. } => WindowMetadata { state: m.state.spec_set(WindowState { bits: 0b10 }, false), ..m },
        WindowEvent::Maximized { .. } => WindowMetadata { state: m.state.spec_set(WindowState { bits: 0b100 }, true), ..m },
        WindowEvent::WorkspacedChanged { to, .. } => WindowMetadata { workspace: to, ..m },
        WindowEvent::MonitorChanged { to, .. } => WindowMetadata { monitor: to, ..m },
        WindowEvent::Hidden { .. } => WindowMetadata { state: m.state.spec_set(WindowState { bits: 0b1 }, false), ..m },
        WindowEvent::Shown { .. } => WindowMetadata { state: m.state.spec_set(WindowState { bits: 0b1 }, true), ..m },
        _ => m,
    }
}

/// The position of the window with the highest z-order; among equal
/// z-orders the last one (as `Iterator::max_by_key` picks it).
pub open spec fn max_z_pos(ws: Seq<WindowMetadata>) -> int
    decreases ws.len(),
{
    if ws.len() == 0 {
        -1
    } else {
        let j = max_z_pos(ws.drop_last());
        if j < 0 || ws.last().z_order >= ws[j].z_order {
            ws.len() - 1
        } else {
            j
        }
    }
}

/// The id of the window with the highest z-order, if any window is left.
pub open spec fn max_z_id(ws: Seq<WindowMetadata>) -> Option<WindowId> {
    let j = max_z_pos(ws);
    if j >= 0 {
        Some(ws[j].id)
    } else {
        None
    }
}

/// The windows after one event.
pub open spec fn windows_after(ws: Seq<WindowMetadata>, z: u32, ev: WindowEvent) -> Seq<WindowMetadata> {
    match ev {
        WindowEvent::Created(meta) => upsert_window(ws, WindowMetadata { z_order: next_z(z), ..meta }),
        WindowEvent::Destroyed { id } => {
            let p = window_pos(ws, id);
            if p >= 0 {
                ws.remove(p)
            } else {
                ws
            }
        },
        _ => match modified_target(ev) {
            Some(id) => {
                let p = window_pos(ws, id);
                if p >= 0 {
                    ws.update(p, modify(ws[p], ev))
                } else {
                    ws
                }
            },
            None => ws,
        },
    }
}

/// The focus pointer after one event.
pub open spec fn focus_after(ws: Seq<WindowMetadata>, focus: Option<WindowId>, z: u32, ev: WindowEvent) -> Option<WindowId> {
    match ev {
        WindowEvent::Created(meta) => if focus is None {
            Some(meta.id)
        } else {
            focus
        },
        WindowEvent::Destroyed { id } => if focus == Some(id) {
            max_z_id(windows_after(ws, z, ev))
        } else {
            focus
        },
        WindowEvent::Focused { id } => Some(id),
        _ => focus,
    }
}

/// The z-order counter after one event.
pub open spec fn z_after(z: u32, ev: WindowEvent) -> u32 {
    match ev {
        WindowEvent::Created(_) => next_z(z),
        _ => z,
    }
}

/// The monitors after a wholesale replacement with `input`, in order.
pub open spec fn monitors_from(input: Seq<MonitorDef>) -> Seq<MonitorDef>
    decreases input.len(),
{
    if input.len() == 0 {
        Seq::empty()
    } else {
        upsert_monitor(monitors_from(input.drop_last()), input.last())
    }
}

/// The primary pointer after a replacement: the last monitor flagged
/// primary, else the previous pointer.
pub open spec fn primary_from(old_primary: Option<MonitorId>, input: Seq<MonitorDef>) -> Option<MonitorId>
    decreases input.len(),
{
    if input.len() == 0 {
        old_primary
    } else if input.last().primary {
        Some(input.last().id)
    } else {
        primary_from(old_primary, input.drop_last())
    }
}

/// The snapshots of the windows listed for `workspace`: not hidden from
/// the panel and assigned to that workspace, in registry order.
pub open spec fn listed_on(ws: Seq<WindowMetadata>, workspace: WorkspaceIndex) -> Seq<WindowSnapshot>
    decreases ws.len(),
{
    if ws.len() == 0 {
        Seq::empty()
    } else {
        let rest = listed_on(ws.drop_last(), workspace);
        let m = ws.last();
        if !m.state.spec_contains(WindowState { bits: 0b1_0000_0000 }) && m.workspace == workspace {
            rest.push(snapshot_of(m))
        } else {
            rest
        }
    }
}

/// Thread-agnostic registry of tracked windows and monitors.
pub struct Registry {
    windows: Vec<WindowMetadata>,
    focus: Option<WindowId>,
    z_counter: u32,
    monitors: Vec<MonitorDef>,
    primary: Option<MonitorId>,
    pending: Vec<WindowEvent>,
    last_event_count: u64,
}

impl Registry {
    /// The tracked windows, in registry order.
    pub closed spec fn windows(&self) -> Seq<WindowMetadata> {
        self.windows@
    }

    /// No stored z-order is above the counter.
    pub open spec fn z_bounded(&self) -> bool {
        forall|j: int| 0 <= j < self.windows().len() ==> (#[trigger] self.windows()[j]).z_order <= self.z_counter()
    }

    /// The focus pointer.
    pub closed spec fn focus(&self) -> Option<WindowId> {
        self.focus
    }

    /// The z-order counter.
    pub closed spec fn z_counter(&self) -> u32 {
        self.z_counter
    }

    /// The known monitors.
    pub closed spec fn monitors(&self) -> Seq<MonitorDef> {
        self.monitors@
    }

    /// The primary-monitor pointer.
    pub closed spec fn primary(&self) -> Option<MonitorId> {
        self.primary
    }

    /// Events applied since the last drain, oldest first.
    pub closed spec fn pending(&self) -> Seq<WindowEvent> {
        self.pending@
    }

    /// Number of events drained so far (wrapping).
    pub closed spec fn drained(&self) -> u64 {
        self.last_event_count
    }

    /// The registry's invariant: ids are unique.
    pub open spec fn wf(&self) -> bool {
        unique_windows(self.windows()) && unique_monitors(self.monitors())
    }

    /// An empty registry.
    pub fn new() -> (r: Registry)
        ensures
            r.wf(),
            r.windows().len() == 0,
            r.focus() is None,
            r.z_counter() == 0,
            r.monitors().len() == 0,
            r.primary() is None,
            r.pending().len() == 0,
            r.drained() == 0,
    {
        Registry {
            windows: Vec::new(),
            focus: None,
            z_counter: 0,
            monitors: Vec::new(),
            primary: None,
            pending: Vec::new(),
            last_event_count: 0,
        }
    }

    fn find_window(&self, id: WindowId) -> (r: Option<usize>)
        ensures
            r matches Some(p) ==> p == window_pos(self.windows(), id),
            r is None ==> window_pos(self.windows(), id) == -1,
    {
        proof {
            lemma_window_pos(self.windows@, id);
        }
        let mut i: usize = 0;
        while i < self.windows.len()
            invariant
                i <= self.windows@.len(),
                forall|j: int| 0 <= j < i ==> (#[trigger] self.windows@[j]).id != id,
            decreases self.windows@.len() - i,
        {
            if self.windows[i].id == id {
                proof {
                    lemma_window_pos(self.windows@, id);
                    let q = window_pos(self.windows@, id);
                    if q >= 0 && q < i {
                        assert(self.windows@[q].id != id);
                    }
                    assert(self.windows@[i as int].id == id);
                }
                return Some(i);
            }
            i = i + 1;
        }
        None
    }

    fn find_monitor(&self, id: MonitorId) -> (r: Option<usize>)
        ensures
            r matches Some(p) ==> p == monitor_pos(self.monitors(), id),
            r is None ==> monitor_pos(self.monitors(), id) == -1,
    {
        proof {
            lemma_monitor_pos(self.monitors@, id);
        }
        let mut i: usize = 0;
        while i < self.monitors.len()
            invariant
                i <= self.monitors@.len(),
                forall|j: int| 0 <= j < i ==> (#[trigger] self.monitors@[j]).id != id,
            decreases self.monitors@.len() - i,
        {
            if self.monitors[i].id == id {
                proof {
                    lemma_monitor_pos(self.monitors@, id);
                    let q = monitor_pos(self.monitors@, id);
                    if q >= 0 && q < i {
                        assert(self.monitors@[q].id != id);
                    }
                    assert(self.monitors@[i as int].id == id);
                }
                return Some(i);
            }
            i = i + 1;
        }
        None
    }

    /// Take every event applied since the last drain.
    pub fn drain_events(&mut self) -> (r: Vec<WindowEvent>)
        ensures
            r@ == old(self).pending(),
            final(self).pending().len() == 0,
            final(self).drained() == ((old(self).drained() + old(self).pending().len()) % 0x1_0000_0000_0000_0000) as u64,
            final(self).windows() == old(self).windows(),
            final(self).focus() == old(self).focus(),
            final(self).z_counter() == old(self).z_counter(),
            final(self).monitors() == old(self).monitors(),
            final(self).primary() == old(self).primary(),
    {
        let mut drained: Vec<WindowEvent> = Vec::new();
        std::mem::swap(&mut drained, &mut self.pending);
        let n = drained.len() as u64;
        self.last_event_count = self.last_event_count.wrapping_add(n);
        drained
    }

    /// Snapshots of the windows listed for `workspace`.
    pub fn snapshot_for(&self, workspace: WorkspaceIndex) -> (r: Vec<WindowSnapshot>)
        ensures
            r@ == listed_on(self.windows(), workspace),
    {
        let mut out: Vec<WindowSnapshot> = Vec::new();
        let mut i: usize = 0;
        let hidden = WindowState::hidden_from_panel();
        while i < self.windows.len()
            invariant
                i <= self.windows@.len(),
                hidden.bits == 0b1_0000_0000,
                out@ == listed_on(self.windows@.subrange(0, i as int), workspace),
            decreases self.windows@.len() - i,
        {
            let m = &self.windows[i];
            assert(self.windows@.subrange(0, i + 1).drop_last() =~= self.windows@.subrange(0, i as int));
            if !m.state.contains(hidden) && m.workspace == workspace {
                out.push(WindowSnapshot::from_metadata(m));
            }
            i = i + 1;
        }
        assert(self.windows@.subrange(0, i as int) =~= self.windows@);
        out
    }

    /// The snapshot of the focused window, if it is tracked.
    pub fn focused(&self) -> (r: Option<WindowSnapshot>)
        ensures
            match self.focus() {
                Some(id) => {
                    let p = window_pos(self.windows(), id);
                    if p >= 0 {
                        r == Some(snapshot_of(self.windows()[p]))
                    } else {
                        r is None
                    }
                },
                None => r is None,
            },
    {
        match self.focus {
            Some(id) => {
                proof {
                    lemma_window_pos(self.windows@, id);
                }
                match self.find_window(id) {
                    Some(p) => Some(WindowSnapshot::from_metadata(&self.windows[p])),
                    None => None,
                }
            },
            None => None,
        }
    }

    /// `true` if the focused window is tracked and has the raw id `hwnd`.
    pub fn contains(&self, hwnd: u64) -> (r: bool)
        ensures
            r == (match self.focus() {
                Some(id) => window_pos(self.windows(), id) >= 0 && id.raw() == hwnd,
                None => false,
            }),
    {
        proof {
            if let Some(id) = self.focus {
                lemma_window_pos(self.windows@, id);
            }
        }
        match self.focused() {
            Some(w) => w.id.get() == hwnd,
            None => false,
        }
    }

    /// The primary monitor, if its definition is known.
    pub fn primary_monitor(&self) -> (r: Option<MonitorDef>)
        ensures
            match self.primary() {
                Some(id) => {
                    let p = monitor_pos(self.monitors(), id);
                    if p >= 0 {
                        r == Some(self.monitors()[p])
                    } else {
                        r is None
                    }
                },
                None => r is None,
            },
    {
        match self.primary {
            Some(id) => {
                proof {
                    lemma_monitor_pos(self.monitors@, id);
                }
                match self.find_monitor(id) {
                    Some(p) => Some(self.monitors[p].clone()),
                    None => None,
                }
            },
            None => None,
        }
    }

    fn max_z_window(&self) -> (r: Option<WindowId>)
        ensures
            r == max_z_id(self.windows()),
    {
        let mut best: Option<usize> = None;
        let mut i: usize = 0;
        while i < self.windows.len()
            invariant
                i <= self.windows@.len(),
                best matches Some(b) ==> (b < i && b == max_z_pos(self.windows@.subrange(0, i as int))),
                best is None ==> max_z_pos(self.windows@.subrange(0, i as int)) == -1,
            decreases self.windows@.len() - i,
        {
            let ghost pre = self.windows@.subrange(0, i as int);
            let ghost cur = self.windows@.subrange(0, i + 1);
            assert(cur.drop_last() =~= pre);
            assert(cur.last() == self.windows@[i as int]);
            match best {
                Some(b) => {
                    assert(pre[b as int] == self.windows@[b as int]);
                    if self.windows[i].z_order >= self.windows[b].z_order {
                        best = Some(i);
                    }
                },
                None => {
                    best = Some(i);
                },
            }
            i = i + 1;
        }
        assert(self.windows@.subrange(0, i as int) =~= self.windows@);
        match best {
            Some(b) => Some(self.windows[b].id),
            None => None,
        }
    }

    fn modify_at(&mut self, p: usize, event: &WindowEvent)
        requires
            p < old(self).windows@.len(),
            unique_windows(old(self).windows@),
        ensures
            final(self).windows@ == old(self).windows@.update(p as int, modify(old(self).windows@[p as int], *event)),
            unique_windows(final(self).windows@),
            final(self).focus == old(self).focus,
            final(self).z_counter == old(self).z_counter,
            final(self).monitors == old(self).monitors,
            final(self).primary == old(self).primary,
            final(self).pending == old(self).pending,
            final(self).last_event_count == old(self).last_event_count,
    {
        let mut m = self.windows.remove(p);
        match event {
            WindowEvent::TitleChanged { title, .. } => {
                m.title = title.clone();
            },
            WindowEvent::MovedOrResized { rect, .. } => {
                m.rect = *rect;
            },
            WindowEvent::Minimized { .. } => {
                m.state.set(WindowState::minimized(), true);
            },
            WindowEvent::Restored { .. } => {
                m.state.set(WindowState::minimized(), false);
            },
            WindowEvent::Maximized { .. } => {
                m.state.set(WindowState::maximized(), true);
            },
            WindowEvent::WorkspacedChanged { to, .. } => {
                m.workspace = *to;
            },
            WindowEvent::MonitorChanged { to, .. } => {
                m.monitor = *to;
            },
            WindowEvent::Hidden { .. } => {
                m.state.set(WindowState::visible(), false);
            },
            WindowEvent::Shown { .. } => {
                m.state.set(WindowState::visible(), true);
            },
            _ => {},
        }
        self.windows.insert(p, m);
        assert(self.windows@ =~= old(self).windows@.update(p as int, modify(old(self).windows@[p as int], *event)));
        assert(unique_windows(self.windows@)) by {
            assert forall|i: int, j: int| 0 <= i < j < self.windows@.len() implies self.windows@[i].id != self.windows@[j].id by {
                assert(old(self).windows@[i].id != old(self).windows@[j].id);
            }
        }
    }

    /// Apply one event: record it, then update the windows, the focus
    /// pointer and the z-order counter as [`windows_after`],
    /// [`focus_after`] and [`z_after`] say.
    pub fn apply(&mut self, event: WindowEvent)
        requires
            old(self).wf(),
        ensures
            final(self).wf(),
            final(self).pending() == old(self).pending().push(event),
            final(self).windows() == windows_after(old(self).windows(), old(self).z_counter(), event),
            final(self).focus() == focus_after(old(self).windows(), old(self).focus(), old(self).z_counter(), event),
            final(self).z_counter() == z_after(old(self).z_counter(), event),
            final(self).monitors() == old(self).monitors(),
            final(self).primary() == old(self).primary(),
            final(self).drained() == old(self).drained(),
            old(self).z_bounded() && (event is Created ==> old(self).z_counter() < u32::MAX) ==> final(self).z_bounded(),
            event matches WindowEvent::Created(m) ==> (old(self).z_bounded() && old(self).z_counter() < u32::MAX
                ==> on_top(final(self).windows(), m.id)),
    {
        proof {
            lemma_apply_z(old(self).windows(), old(self).z_counter(), event);
        }
        self.pending.push(event.clone());
        proof {
            lemma_window_pos(self.windows@, event_subject(event));
        }
        match event {
            WindowEvent::Created(meta) => {
                self.z_counter = self.z_counter.wrapping_add(1);
                let mut meta = meta;
                meta.z_order = self.z_counter;
                let id = meta.id;
                match self.find_window(id) {
                    Some(p) => {
                        self.windows.set(p, meta);
                        assert(unique_windows(self.windows@)) by {
                            assert forall|i: int, j: int| 0 <= i < j < self.windows@.len() implies self.windows@[i].id != self.windows@[j].id by {
                                assert(old(self).windows@[i].id != old(self).windows@[j].id);
                            }
                        }
                    },
                    None => {
                        self.windows.push(meta);
                        assert(unique_windows(self.windows@)) by {
                            assert forall|i: int, j: int| 0 <= i < j < self.windows@.len() implies self.windows@[i].id != self.windows@[j].id by {
                                if j < old(self).windows@.len() {
                                    assert(old(self).windows@[i].id != old(self).windows@[j].id);
                                } else {
                                    assert(old(self).windows@[i].id != id);
                                }
                            }
                        }
                    },
                }
                if self.focus.is_none() {
                    self.focus = Some(id);
                }
            },
            WindowEvent::Destroyed { id } => {
                match self.find_window(id) {
                    Some(p) => {
                        self.windows.remove(p);
                        assert(unique_windows(self.windows@)) by {
                            assert forall|i: int, j: int| 0 <= i < j < self.windows@.len() implies self.windows@[i].id != self.windows@[j].id by {
                                let oi = if i < p { i } else { i + 1 };
                                let oj = if j < p { j } else { j + 1 };
                                assert(old(self).windows@[oi].id != old(self).windows@[oj].id);
                            }
                        }
                    },
                    None => {},
                }
                let refocus = match self.focus {
                    Some(f) => f == id,
                    None => false,
                };
                if refocus {
                    self.focus = self.max_z_window();
                }
            },
            WindowEvent::Focused { id } => {
                self.focus = Some(id);
            },
            _ => {
                let target = match &event {
                    WindowEvent::TitleChanged { id, .. } => *id,
                    WindowEvent::MovedOrResized { id, .. } => *id,
                    WindowEvent::Minimized { id } => *id,
                    WindowEvent::Restored { id } => *id,
                    WindowEvent::Maximized { id } => *id,
                    WindowEvent::WorkspacedChanged { id, .. } => *id,
                    WindowEvent::MonitorChanged { id, .. } => *id,
                    WindowEvent::Hidden { id } => *id,
                    WindowEvent::Shown { id } => *id,
                    _ => WindowId(0),
                };
                match self.find_window(target) {
                    Some(p) => {
                        self.modify_at(p, &event);
                    },
                    None => {},
                }
            },
        }
    }

    /// Replace the monitor store wholesale. Monitors flagged primary
    /// move the primary pointer; the last such flag wins, and with none
    /// the pointer is kept.
    pub fn replace_monitors(&mut self, monitors: Vec<MonitorDef>)
        requires
            old(self).wf(),
        ensures
            final(self).wf(),
            final(self).monitors() == monitors_from(monitors@),
            final(self).primary() == primary_from(old(self).primary(), monitors@),
            final(self).windows() == old(self).windows(),
            final(self).focus() == old(self).focus(),
            final(self).z_counter() == old(self).z_counter(),
            final(self).pending() == old(self).pending(),
            final(self).drained() == old(self).drained(),
    {
        self.monitors.clear();
        let mut i: usize = 0;
        assert(monitors@.subrange(0, 0) =~= Seq::<MonitorDef>::empty());
        while i < monitors.len()
            invariant
                i <= monitors@.len(),
                self.monitors@ == monitors_from(monitors@.subrange(0, i as int)),
                self.primary == primary_from(old(self).primary, monitors@.subrange(0, i as int)),
                unique_monitors(self.monitors@),
                self.windows == old(self).windows,
                unique_windows(self.windows@),
                self.focus == old(self).focus,
                self.z_counter == old(self).z_counter,
                self.pending == old(self).pending,
                self.last_event_count == old(self).last_event_count,
            decreases monitors@.len() - i,
        {
            let ghost cur = monitors@.subrange(0, i + 1);
            assert(cur.drop_last() =~= monitors@.subrange(0, i as int));
            let m = monitors[i].clone();
            if m.primary {
                self.primary = Some(m.id);
            }
            let id = m.id;
            proof {
                lemma_monitor_pos(self.monitors@, id);
            }
            match self.find_monitor(id) {
                Some(p) => {
                    self.monitors.set(p, m);
                    assert(unique_monitors(self.monitors@)) by {
                        assert forall|a: int, b: int| 0 <= a < b < self.monitors@.len() implies self.monitors@[a].id != self.monitors@[b].id by {
                            assert(old(self).monitors@.len() >= 0);
                        }
                    }
                },
                None => {
                    self.monitors.push(m);
                },
            }
            i = i + 1;
        }
        assert(monitors@.subrange(0, i as int) =~= monitors@);
    }

    /// Set or clear the hidden-from-panel flag of a tracked window.
    pub fn mark_hidden_from_panel(&mut self, id: WindowId, hidden: bool)
        requires
            old(self).wf(),
        ensures
            final(self).wf(),
            final(self).windows() == ({
                let p = window_pos(old(self).windows(), id);
                if p >= 0 {
                    old(self).windows().update(p, WindowMetadata {
                        state: old(self).windows()[p].state.spec_set(WindowState { bits: 0b1_0000_0000 }, hidden),
                        ..old(self).windows()[p]
                    })
                } else {
                    old(self).windows()
                }
            }),
            final(self).focus() == old(self).focus(),
            final(self).z_counter() == old(self).z_counter(),
            final(self).monitors() == old(self).monitors(),
            final(self).primary() == old(self).primary(),
            final(self).pending() == old(self).pending(),
            final(self).drained() == old(self).drained(),
    {
        match self.find_window(id) {
            Some(p) => {
                proof {
                    lemma_window_pos(self.windows@, id);
                }
                let mut m = self.windows.remove(p);
                m.state.set(WindowState::hidden_from_panel(), hidden);
                self.windows.insert(p, m);
                assert(unique_windows(self.windows@)) by {
                    assert forall|i: int, j: int| 0 <= i < j < self.windows@.len() implies self.windows@[i].id != self.windows@[j].id by {
                        assert(old(self).windows@[i].id != old(self).windows@[j].id);
                    }
                }
            },
            None => {},
        }
    }
}

/// A created window is tracked, as given, with the next z-order.
pub proof fn lemma_created_tracked(ws: Seq<WindowMetadata>, z: u32, m: WindowMetadata)
    ensures
        ({
            let after = windows_after(ws, z, WindowEvent::Created(m));
            let p = window_pos(after, m.id);
            p >= 0 && after[p] == (WindowMetadata { z_order: next_z(z), ..m })
        }),
{
    let stored = WindowMetadata { z_order: next_z(z), ..m };
    let after = windows_after(ws, z, WindowEvent::Created(m));
    lemma_window_pos(ws, m.id);
    let p = window_pos(ws, m.id);
    if p >= 0 {
        assert forall|j: int| 0 <= j < p implies !has_window_id(m.id)(#[trigger] after[j]) by {
            assert(after[j] == ws[j]);
        }
        lemma_first_index_at(after, has_window_id(m.id), p);
    } else {
        assert forall|j: int| 0 <= j < ws.len() implies !has_window_id(m.id)(#[trigger] after[j]) by {
            assert(after[j] == ws[j]);
        }
        lemma_first_index_at(after, has_window_id(m.id), ws.len() as int);
    }
}

/// Both z-order laws, for one event on bounded z-orders.
proof fn lemma_apply_z(ws: Seq<WindowMetadata>, z: u32, ev: WindowEvent)
    ensures
        (forall|j: int| 0 <= j < ws.len() ==> (#[trigger] ws[j]).z_order <= z) && (ev is Created ==> z < u32::MAX)
            ==> forall|j: int| 0 <= j < windows_after(ws, z, ev).len()
                ==> (#[trigger] windows_after(ws, z, ev)[j]).z_order <= z_after(z, ev),
        ev matches WindowEvent::Created(m) ==> ((forall|j: int| 0 <= j < ws.len() ==> (#[trigger] ws[j]).z_order <= z)
            && z < u32::MAX ==> on_top(windows_after(ws, z, ev), m.id)),
{
    if (forall|j: int| 0 <= j < ws.len() ==> (#[trigger] ws[j]).z_order <= z) && (ev is Created ==> z < u32::MAX) {
        lemma_apply_keeps_z_bound(ws, z, ev);
    }
    match ev {
        WindowEvent::Created(m) => {
            if (forall|j: int| 0 <= j < ws.len() ==> (#[trigger] ws[j]).z_order <= z) && z < u32::MAX {
                lemma_created_on_top(ws, z, m);
            }
        },
        _ => {},
    }
}

/// The window `id` is tracked and every other window has a lower z-order.
pub open spec fn on_top(ws: Seq<WindowMetadata>, id: WindowId) -> bool {
    let p = window_pos(ws, id);
    &&& p >= 0
    &&& forall|j: int| 0 <= j < ws.len() && j != p ==> (#[trigger] ws[j]).z_order < ws[p].z_order
}

/// While the z-order counter has not wrapped and no stored z-order is above
/// it, a created window is on top: every other window has a lower z-order.
pub proof fn lemma_created_on_top(ws: Seq<WindowMetadata>, z: u32, m: WindowMetadata)
    requires
        z < u32::MAX,
        forall|j: int| 0 <= j < ws.len() ==> (#[trigger] ws[j]).z_order <= z,
    ensures
        ({
            let after = windows_after(ws, z, WindowEvent::Created(m));
            let p = window_pos(after, m.id);
            &&& p >= 0 && after[p].z_order == z + 1
            &&& forall|j: int| 0 <= j < after.len() && j != p ==> (#[trigger] after[j]).z_order < after[p].z_order
            &&& forall|j: int| 0 <= j < after.len() ==> (#[trigger] after[j]).z_order <= z + 1
        }),
{
    lemma_created_tracked(ws, z, m);
    let after = windows_after(ws, z, WindowEvent::Created(m));
    let p = window_pos(after, m.id);
    lemma_window_pos(ws, m.id);
    let q = window_pos(ws, m.id);
    assert forall|j: int| 0 <= j < after.len() && j != p implies (#[trigger] after[j]).z_order < after[p].z_order by {
        if q >= 0 {
            assert(after == ws.update(q, WindowMetadata { z_order: next_z(z), ..m }));
            lemma_window_pos(after, m.id);
            if j != q {
                assert(after[j] == ws[j]);
            }
        } else {
            assert(after == ws.push(WindowMetadata { z_order: next_z(z), ..m }));
            lemma_window_pos(after, m.id);
            if j < ws.len() {
                assert(after[j] == ws[j]);
            }
        }
    }
}

/// Every event keeps each stored z-order at or below the counter, as long
/// as a creation does not wrap the counter.
pub proof fn lemma_apply_keeps_z_bound(ws: Seq<WindowMetadata>, z: u32, ev: WindowEvent)
    requires
        forall|j: int| 0 <= j < ws.len() ==> (#[trigger] ws[j]).z_order <= z,
        ev is Created ==> z < u32::MAX,
    ensures
        forall|j: int| 0 <= j < windows_after(ws, z, ev).len() ==> (#[trigger] windows_after(ws, z, ev)[j]).z_order <= z_after(z, ev),
{
    let after = windows_after(ws, z, ev);
    match ev {
        WindowEvent::Created(m) => {
            lemma_created_on_top(ws, z, m);
        },
        WindowEvent::Destroyed { id } => {
            lemma_window_pos(ws, id);
            let p = window_pos(ws, id);
            assert forall|j: int| 0 <= j < after.len() implies (#[trigger] after[j]).z_order <= z by {
                if p >= 0 && j >= p {
                    assert(after[j] == ws[j + 1]);
                } else {
                    assert(after[j] == ws[j]);
                }
            }
        },
        _ => {
            lemma_window_pos(ws, match modified_target(ev) { Some(id) => id, None => WindowId(0) });
            assert forall|j: int| 0 <= j < after.len() implies (#[trigger] after[j]).z_order <= z by {
                match modified_target(ev) {
                    Some(id) => {
                        let p = window_pos(ws, id);
                        if p >= 0 && j == p {
                            assert(after[j] == modify(ws[p], ev));
                        } else {
                            assert(after[j] == ws[j]);
                        }
                    },
                    None => {},
                }
            }
        },
    }
}

/// A destroyed window is no longer tracked.
pub proof fn lemma_destroyed_untracked(ws: Seq<WindowMetadata>, z: u32, id: WindowId)
    requires
        unique_windows(ws),
    ensures
        window_pos(windows_after(ws, z, WindowEvent::Destroyed { id }), id) == -1,
{
    let after = windows_after(ws, z, WindowEvent::Destroyed { id });
    lemma_window_pos(ws, id);
    let p = window_pos(ws, id);
    assert forall|j: int| 0 <= j < after.len() implies !has_window_id(id)(#[trigger] after[j]) by {
        if p >= 0 {
            if j < p {
                assert(after[j] == ws[j]);
            } else {
                assert(after[j] == ws[j + 1]);
                assert(ws[p].id != ws[j + 1].id);
            }
        } else {
            assert(after[j] == ws[j]);
        }
    }
    lemma_first_index_none(after, has_window_id(id));
}

/// The highest z-order position lies inside a non-empty sequence and no
/// window has a higher z-order.
pub proof fn lemma_max_z_pos(ws: Seq<WindowMetadata>)
    ensures
        ws.len() == 0 <==> max_z_pos(ws) == -1,
        ws.len() > 0 ==> 0 <= max_z_pos(ws) < ws.len(),
        ws.len() > 0 ==> forall|j: int| 0 <= j < ws.len() ==> (#[trigger] ws[j]).z_order <= ws[max_z_pos(ws)].z_order,
    decreases ws.len(),
{
    if ws.len() > 0 {
        lemma_max_z_pos(ws.drop_last());
        assert forall|j: int| 0 <= j < ws.len() implies (#[trigger] ws[j]).z_order <= ws[max_z_pos(ws)].z_order by {
            if j < ws.len() - 1 {
                assert(ws[j] == ws.drop_last()[j]);
                if max_z_pos(ws.drop_last()) >= 0 {
                    assert(ws[max_z_pos(ws.drop_last())] == ws.drop_last()[max_z_pos(ws.drop_last())]);
                }
            }
        }
    }
}

/// Destroying the focused window hands the focus to the remaining window
/// with the highest z-order, or to nothing when no window is left.
pub proof fn lemma_focus_after_destroy(ws: Seq<WindowMetadata>, z: u32, id: WindowId)
    ensures
        ({
            let after = windows_after(ws, z, WindowEvent::Destroyed { id });
            let f = focus_after(ws, Some(id), z, WindowEvent::Destroyed { id });
            &&& (f is None <==> after.len() == 0)
            &&& (f matches Some(x) ==> exists|i: int| 0 <= i < after.len() && after[i].id == x && forall|j: int|
                0 <= j < after.len() ==> (#[trigger] after[j]).z_order <= after[i].z_order)
        }),
{
    let after = windows_after(ws, z, WindowEvent::Destroyed { id });
    lemma_max_z_pos(after);
}

/// Every window listed for a workspace is on that workspace and not
/// hidden from the panel.
pub proof fn lemma_listed_visible(ws: Seq<WindowMetadata>, workspace: WorkspaceIndex)
    ensures
        forall|i: int| 0 <= i < listed_on(ws, workspace).len() ==> {
            let s = #[trigger] listed_on(ws, workspace)[i];
            s.workspace == workspace && !s.state.spec_contains(WindowState { bits: 0b1_0000_0000 })
        },
    decreases ws.len(),
{
    if ws.len() > 0 {
        lemma_listed_visible(ws.drop_last(), workspace);
        let rest = listed_on(ws.drop_last(), workspace);
        assert forall|i: int| 0 <= i < listed_on(ws, workspace).len() implies {
            let s = #[trigger] listed_on(ws, workspace)[i];
            s.workspace == workspace && !s.state.spec_contains(WindowState { bits: 0b1_0000_0000 })
        } by {
            if i < rest.len() {
                assert(listed_on(ws, workspace)[i] == rest[i]);
            }
        }
    }
}

} // verus!
