//! The window manager: the user's windows, the foreground window (cached
//! while it still exists) and moving it to another workspace.

use vstd::prelude::*;
use crate::error::JacqueError;
use crate::text::owned;
use crate::virtual_desktop::{listing, DesktopId, VirtualDesktopAdapter};
use crate::workspace::WorkspaceIndex;

verus! {

/// A top-level window as the enumerator reports it.
#[derive(Debug, PartialEq, Eq, Hash)]
pub struct WindowSnapshot {
    /// Raw window handle.
    pub hwnd: u64,
    /// Process id of the owner.
    pub pid: u32,
    /// Window title.
    pub title: String,
    /// Window class name.
    pub class: String,
    /// Whether the window is visible.
    pub visible: bool,
}

impl Clone for WindowSnapshot {
    fn clone(&self) -> (r: Self)
        ensures
            r == *self,
    {
        WindowSnapshot {
            hwnd: self.hwnd,
            pid: self.pid,
            title: self.title.clone(),
            class: self.class.clone(),
            visible: self.visible,
        }
    }
}

/// The platform's window enumeration.
pub trait WindowEnumerator {
    /// `answer` is a possible answer of this enumerator to listing windows.
    spec fn windows_answer(&self, answer: Result<Vec<WindowSnapshot>, JacqueError>) -> bool;

    /// `answer` is a possible answer to asking for the foreground window.
    spec fn foreground_answer(&self, answer: Result<Option<WindowSnapshot>, JacqueError>) -> bool;

    /// `answer` is a possible answer to asking whether `hwnd` exists.
    spec fn window_answer(&self, hwnd: u64, answer: bool) -> bool;

    /// The user's windows (system, invisible and tool windows skipped).
    fn enumerate(&self) -> (r: Result<Vec<WindowSnapshot>, JacqueError>)
        ensures
            self.windows_answer(r);

    /// The foreground window, if any.
    fn foreground(&self) -> (r: Result<Option<WindowSnapshot>, JacqueError>)
        ensures
            self.foreground_answer(r);

    /// The window exists and is visible.
    fn is_window(&self, hwnd: u64) -> (r: bool)
        ensures
            self.window_answer(hwnd, r);
}

/// `alive` and `live` are answers the enumerator may give to the questions
/// [`WindowManager::foreground`] asks: whether the cached window still
/// exists (asked when there is one), and which window is in the foreground
/// (asked unless the cached window still exists).
pub open spec fn foreground_answers<E: WindowEnumerator>(
    e: E,
    cached: Option<WindowSnapshot>,
    alive: bool,
    live: Result<Option<WindowSnapshot>, JacqueError>,
) -> bool {
    &&& (cached matches Some(c) ==> e.window_answer(c.hwnd, alive))
    &&& (!(cached is Some && alive) ==> e.foreground_answer(live))
}

/// Moving the foreground window, as the other subsystems see it; the
/// shared window service implements it.
pub trait WindowManagerTrait {
    /// `answer` is a possible answer of this service to moving the
    /// foreground window to `idx`.
    spec fn move_answer(&self, idx: WorkspaceIndex, answer: Result<(), JacqueError>) -> bool;

    /// Move the foreground window to the workspace.
    fn move_foreground_to(&self, idx: WorkspaceIndex) -> (r: Result<(), JacqueError>)
        ensures
            self.move_answer(idx, r);
}

/// The error a failed move of window `hwnd` to `index` reports: the
/// handle, the workspace and the message of the adapter's error.
pub fn window_move_error(hwnd: u64, index: WorkspaceIndex, cause: &JacqueError) -> (e: JacqueError)
    ensures
        e matches JacqueError::WindowMove { hwnd: h, index: i, reason } && h == hwnd && i == index.value()
            && reason@ == crate::error::message(*cause),
{
    JacqueError::WindowMove { hwnd, index: index.get(), reason: cause.describe() }
}

/// The window manager over an enumerator `E` and an adapter `A`.
pub struct WindowManager<E, A> {
    enumerator: E,
    adapter: A,
    foreground_cache: Option<WindowSnapshot>,
}

impl<E: WindowEnumerator, A: VirtualDesktopAdapter> WindowManager<E, A> {
    /// The cached foreground window.
    pub closed spec fn cached(&self) -> Option<WindowSnapshot> {
        self.foreground_cache
    }

    /// The enumerator.
    pub closed spec fn enumerator_value(&self) -> E {
        self.enumerator
    }

    /// The adapter.
    pub closed spec fn adapter_value(&self) -> A {
        self.adapter
    }

    /// A manager with nothing cached.
    pub fn new(enumerator: E, adapter: A) -> (r: Self)
        ensures
            r.cached() is None,
            r.enumerator_value() == enumerator,
            r.adapter_value() == adapter,
    {
        WindowManager { enumerator, adapter, foreground_cache: None }
    }

    /// The user's windows: the enumerator's answer.
    pub fn list_windows(&self) -> (r: Result<Vec<WindowSnapshot>, JacqueError>)
        ensures
            self.enumerator_value().windows_answer(r),
    {
        self.enumerator.enumerate()
    }

    /// The foreground window: the cached one while it still exists,
    /// otherwise the enumerator's, which is then cached. What comes back
    /// is [`foreground_outcome`] of whether the platform still knows the
    /// cached window and of the enumerator's answer.
    pub fn foreground(&mut self) -> (r: Result<Option<WindowSnapshot>, JacqueError>)
        ensures
            final(self).enumerator_value() == old(self).enumerator_value(),
            final(self).adapter_value() == old(self).adapter_value(),
            exists|alive: bool, live: Result<Option<WindowSnapshot>, JacqueError>|
                foreground_answers(old(self).enumerator_value(), old(self).cached(), alive, live)
                && #[trigger] foreground_outcome(old(self).cached(), alive, live) == (r, final(self).cached()),
    {
        match &self.foreground_cache {
            Some(c) => {
                if self.enumerator.is_window(c.hwnd) {
                    let r = Ok(Some(c.clone()));
                    assert(foreground_outcome(old(self).cached(), true, r) == (r, self.cached()));
                    return r;
                }
            },
            None => {},
        }
        let live = match self.enumerator.foreground() {
            Ok(l) => l,
            Err(e) => {
                let r = Err(e);
                assert(foreground_outcome(old(self).cached(), false, r) == (r, self.cached()));
                return r;
            },
        };
        match &live {
            Some(f) => {
                self.foreground_cache = Some(f.clone());
            },
            None => {},
        }
        let r = Ok(live);
        assert(foreground_outcome(old(self).cached(), false, r) == (r, self.cached()));
        r
    }

    /// Move the foreground window to a workspace. The foreground window is
    /// looked up ([`Self::foreground`]); the adapter is asked to move that
    /// window's handle to `index` (the answer is one of the adapter's
    /// `move_answer`s for that handle and workspace), and then to enumerate
    /// the desktops. The result is [`move_outcome`] of those answers: no foreground
    /// window gives [`JacqueError::WindowMove`] with handle 0 and "no
    /// foreground window", a failed move gives [`window_move_error`], an
    /// enumeration failure is passed on, and otherwise `Ok`.
    pub fn move_foreground_to(&mut self, index: WorkspaceIndex) -> (r: Result<(), JacqueError>)
        ensures
            final(self).enumerator_value() == old(self).enumerator_value(),
            final(self).adapter_value() == old(self).adapter_value(),
            exists|
                alive: bool,
                live: Result<Option<WindowSnapshot>, JacqueError>,
                moved: Result<(), JacqueError>,
                listed: Result<Vec<DesktopId>, JacqueError>,
            |
                foreground_answers(old(self).enumerator_value(), old(self).cached(), alive, live)
                && ({
                    let fg = foreground_outcome(old(self).cached(), alive, live).0;
                    &&& fg matches Ok(Some(w)) ==> old(self).adapter_value().move_answer(w.hwnd, index, moved)
                    &&& fg matches Ok(Some(w)) ==> final(self).cached() == Some(w)
                    &&& (fg is Ok && fg->Ok_0 is Some && moved is Ok) ==> old(self).adapter_value().listed(listed)
                })
                && #[trigger] move_outcome(index, foreground_outcome(old(self).cached(), alive, live).0, moved, listing(listed), r),
    {
        let fg_result = self.foreground();
        let ghost (alive, live) = choose|alive: bool, live: Result<Option<WindowSnapshot>, JacqueError>|
            foreground_answers(old(self).enumerator_value(), old(self).cached(), alive, live)
            && #[trigger] foreground_outcome(old(self).cached(), alive, live) == (fg_result, self.cached());
        let fg = match foreground_to_move(index, fg_result) {
            Ok(w) => w,
            Err(e) => {
                let r: Result<(), JacqueError> = Err(e);
                assert(move_outcome(index, foreground_outcome(old(self).cached(), alive, live).0, Ok(()), listing(Err(e)), r));
                return r;
            },
        };
        proof {
            assert(self.cached() == Some(fg));
        }
        let moved = self.adapter.move_window(fg.hwnd, index);
        if let Err(e) = &moved {
            let r: Result<(), JacqueError> = Err(window_move_error(fg.hwnd, index, e));
            assert(move_outcome(index, foreground_outcome(old(self).cached(), alive, live).0, moved, listing(Err(*e)), r));
            return r;
        }
        let _placed: DesktopId = match self.adapter.window_desktop(fg.hwnd) {
            Ok(id) => id,
            Err(_) => DesktopId::unknown(),
        };
        let answer = self.adapter.enumerate();
        let ghost listed = answer;
        let r: Result<(), JacqueError> = match answer {
            Ok(_) => Ok(()),
            Err(e) => Err(e),
        };
        proof {
            assert(foreground_outcome(old(self).cached(), alive, live).0 == Ok::<Option<WindowSnapshot>, JacqueError>(Some(fg)));
            assert(old(self).adapter_value().move_answer(fg.hwnd, index, moved));
            assert(moved is Ok);
            assert(old(self).adapter_value().listed(listed));
            assert(move_outcome(index, foreground_outcome(old(self).cached(), alive, live).0, moved, listing(listed), r));
        }
        r
    }
}

/// What [`WindowManager::foreground`] answers and caches, given the cache,
/// whether the platform still knows the cached window, and the
/// enumerator's foreground window (asked only when the cache does not
/// answer).
pub open spec fn foreground_outcome(
    cached: Option<WindowSnapshot>,
    alive: bool,
    live: Result<Option<WindowSnapshot>, JacqueError>,
) -> (Result<Option<WindowSnapshot>, JacqueError>, Option<WindowSnapshot>) {
    if cached is Some && alive {
        (Ok(cached), cached)
    } else {
        match live {
            Ok(Some(f)) => (live, Some(f)),
            _ => (live, cached),
        }
    }
}

/// The error reported when there is no foreground window to move.
pub open spec fn is_no_foreground_error(e: JacqueError, index: WorkspaceIndex) -> bool {
    e matches JacqueError::WindowMove { hwnd, index: i, reason } && hwnd == 0 && i == index.value()
        && reason@ == "no foreground window"@
}

/// What moving the foreground window to `index` comes to, given the
/// foreground lookup, the adapter's answer to the move and its answer to
/// the enumeration that follows.
pub open spec fn move_outcome(
    index: WorkspaceIndex,
    fg: Result<Option<WindowSnapshot>, JacqueError>,
    moved: Result<(), JacqueError>,
    listed: Result<Seq<DesktopId>, JacqueError>,
    r: Result<(), JacqueError>,
) -> bool {
    match fg {
        Err(e) => r == Err::<(), JacqueError>(e),
        Ok(None) => r matches Err(e) && is_no_foreground_error(e, index),
        Ok(Some(w)) => match moved {
            Err(e) => r matches Err(m) && m matches JacqueError::WindowMove { hwnd, index: i, reason }
                && hwnd == w.hwnd && i == index.value() && reason@ == crate::error::message(e),
            Ok(()) => r == (match listed {
                Ok(_) => Ok::<(), JacqueError>(()),
                Err(e) => Err(e),
            }),
        },
    }
}

/// The window to move, from the foreground lookup: the window itself, the
/// no-foreground error, or the lookup's error passed on.
pub fn foreground_to_move(index: WorkspaceIndex, fg: Result<Option<WindowSnapshot>, JacqueError>) -> (r: Result<WindowSnapshot, JacqueError>)
    ensures
        match fg {
            Ok(Some(w)) => r == Ok::<WindowSnapshot, JacqueError>(w),
            Ok(None) => r matches Err(e) && is_no_foreground_error(e, index),
            Err(e) => r == Err::<WindowSnapshot, JacqueError>(e),
        },
{
    match fg {
        Ok(Some(w)) => Ok(w),
        Ok(None) => {
            let reason = owned("no foreground window");
            proof {
                reveal_strlit("no foreground window");
            }
            Err(JacqueError::WindowMove { hwnd: 0, index: index.get(), reason })
        },
        Err(e) => Err(e),
    }
}

} // verus!
