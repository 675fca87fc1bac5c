//! The plugin interface: permissions, profiles, the manifest a plugin is
//! enabled with, the hook events and the trait a plugin implements. No
//! plugin is loaded at run time.

use vstd::prelude::*;
use crate::text::{chars_of, owned};

verus! {

/// A capability a plugin may request.
#[derive(Clone, Copy, Debug, PartialEq, Eq, Hash, Structural)]
pub enum Permission {
    /// Read the workspace count and the active workspace.
    ReadWorkspaces,
    /// Read the layout of each workspace.
    ReadLayout,
    /// Receive workspace-change hooks.
    ObserveWorkspaceChange,
    /// Receive window hooks.
    ObserveWindowEvent,
    /// Submit notifications.
    SubmitNotification,
}

impl Permission {
    /// The permission's written name.
    pub fn as_str(self) -> (r: &'static str)
        ensures
            r@ == (match self {
                Permission::ReadWorkspaces => "read:workspaces"@,
                Permission::ReadLayout => "read:layout"@,
                Permission::ObserveWorkspaceChange => "observe:workspace_change"@,
                Permission::ObserveWindowEvent => "observe:window_events"@,
                Permission::SubmitNotification => "submit:notification"@,
            }),
    {
        match self {
            Permission::ReadWorkspaces => "read:workspaces",
            Permission::ReadLayout => "read:layout",
            Permission::ObserveWorkspaceChange => "observe:workspace_change",
            Permission::ObserveWindowEvent => "observe:window_events",
            Permission::SubmitNotification => "submit:notification",
        }
    }
}

/// The kind of plugin, which bounds its sandboxing defaults.
#[derive(Clone, Copy, Debug, PartialEq, Eq, Hash, Structural)]
pub enum PluginProfile {
    /// Replaces a core engine; receives every workspace event.
    Core,
    /// Adds theme tokens.
    Theme,
    /// Adds launcher entries.
    Launcher,
}

impl Default for PluginProfile {
    fn default() -> (r: Self)
        ensures
            r == PluginProfile::Theme,
    {
        PluginProfile::Theme
    }
}

/// The metadata a plugin is enabled with.
#[derive(Debug)]
pub struct PluginManifest {
    /// Stable id, `<author>/<name>`.
    pub id: String,
    /// Display name.
    pub name: String,
    pub author: String,
    /// `MAJOR.MINOR.PATCH`.
    pub version: String,
    pub profile: PluginProfile,
    /// Requested permissions.
    pub permissions: Vec<Permission>,
    /// Compatible JacqueWM versions, such as `^0.1.0`.
    pub jacquewm_version: String,
}

/// The number of occurrences of `c` in `s`.
pub open spec fn count_char(s: Seq<char>, c: char) -> nat
    decreases s.len(),
{
    if s.len() == 0 {
        0
    } else {
        count_char(s.drop_last(), c) + (if s.last() == c { 1nat } else { 0nat })
    }
}

/// Why a manifest is refused, if it is.
pub open spec fn manifest_error(id: Seq<char>, version: Seq<char>) -> Option<Seq<char>> {
    if id.len() == 0 || !id.contains('/') {
        Some("id must be `<author>/<name>`"@)
    } else if count_char(version, '.') + 1 < 3 {
        Some("version must be MAJOR.MINOR.PATCH"@)
    } else {
        None
    }
}

fn count_in(s: &str, c: char) -> (n: usize)
    ensures
        n == count_char(s@, c),
{
    let v = chars_of(s);
    let mut n: usize = 0;
    let mut i: usize = 0;
    assert(s@.subrange(0, 0) =~= Seq::<char>::empty());
    while i < v.len()
        invariant
            v@ == s@,
            i <= v@.len(),
            n == count_char(s@.subrange(0, i as int), c),
            n <= i,
        decreases v@.len() - i,
    {
        assert(s@.subrange(0, i + 1).drop_last() =~= s@.subrange(0, i as int));
        if v[i] == c {
            n = n + 1;
        }
        i = i + 1;
    }
    assert(s@.subrange(0, i as int) =~= s@);
    n
}

fn has_char(s: &str, c: char) -> (r: bool)
    ensures
        r == s@.contains(c),
{
    let v = chars_of(s);
    let mut i: usize = 0;
    while i < v.len()
        invariant
            v@ == s@,
            i <= v@.len(),
            forall|k: int| 0 <= k < i ==> s@[k] != c,
        decreases v@.len() - i,
    {
        if v[i] == c {
            assert(s@[i as int] == c);
            return true;
        }
        i = i + 1;
    }
    false
}

impl PluginManifest {
    /// Check the manifest: the id must be non-empty and hold a `/`, and the
    /// version must have at least three dot-separated parts.
    pub fn validate(&self) -> (r: Result<(), String>)
        ensures
            match manifest_error(self.id@, self.version@) {
                None => r is Ok,
                Some(msg) => r matches Err(m) && m@ == msg,
            },
    {
        if self.id.as_str().unicode_len() == 0 || !has_char(self.id.as_str(), '/') {
            return Err(owned("id must be `<author>/<name>`"));
        }
        if count_in(self.version.as_str(), '.') < 2 {
            return Err(owned("version must be MAJOR.MINOR.PATCH"));
        }
        Ok(())
    }
}

/// A window event as plugins see it.
#[derive(Clone, Debug)]
pub enum WindowHookKind {
    Created { hwnd: u64 },
    Destroyed { hwnd: u64 },
    Focused { hwnd: u64 },
    TitleChanged { hwnd: u64, title: String },
    Moved { hwnd: u64, x: i32, y: i32, width: i32, height: i32 },
}

/// An event the engine emits to plugins.
#[derive(Clone, Debug)]
pub enum HookEvent {
    /// The user switched workspaces (both in `1..=9`).
    WorkspaceChange { from: u8, to: u8 },
    /// A window event.
    WindowEvent { kind: WindowHookKind },
}

/// What every plugin implements. Plugins run on the engine's thread and
/// must not block.
pub trait JacquePlugin {
    /// The plugin's id, as in its manifest.
    fn id(&self) -> &str;

    /// Called once after registration.
    fn on_load(&self);

    /// Called once at shutdown, after the last hook.
    fn on_unload(&self);

    /// Called on every workspace change; does nothing unless overridden.
    fn on_workspace_change(&self, from: u8, to: u8) {
    }

    /// Called on every window event; does nothing unless overridden.
    fn on_window_event(&self, kind: &WindowHookKind) {
    }
}

} // verus!
