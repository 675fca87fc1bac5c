//! The virtual-desktop abstraction: opaque desktop ids and the adapter
//! the platform layer implements over the shell's desktop service.

use vstd::prelude::*;
use crate::error::JacqueError;
use crate::text::{decimal, digit_char, push_decimal, push_str, string_from_chars};
use crate::workspace::WorkspaceIndex;

verus! {

/// A stable, opaque identifier of a virtual desktop (the shell's GUID).
#[derive(Clone, Copy, Debug, Eq, Hash)]
pub struct DesktopId(pub [u8; 16]);

impl PartialEq for DesktopId {
    fn eq(&self, other: &Self) -> (r: bool) {
        proof {
            broadcast use vstd::array::group_array_axioms;
        }
        let mut i: usize = 0;
        while i < 16
            invariant
                i <= 16,
                self.0@.len() == 16,
                other.0@.len() == 16,
                forall|k: int| 0 <= k < i ==> self.0@[k] == other.0@[k],
            decreases 16 - i,
        {
            if self.0[i] != other.0[i] {
                return false;
            }
            i = i + 1;
        }
        assert(self.0@ =~= other.0@);
        true
    }
}

impl vstd::std_specs::cmp::PartialEqSpecImpl for DesktopId {
    open spec fn obeys_eq_spec() -> bool {
        true
    }

    open spec fn eq_spec(&self, other: &Self) -> bool {
        self.0@ == other.0@
    }
}

/// Ids with the same bytes are the same id.
pub proof fn lemma_id_eq(a: DesktopId, b: DesktopId)
    ensures
        (a.0@ == b.0@) == (a == b),
{
    broadcast use vstd::array::group_array_axioms;
    if a.0@ == b.0@ {
        assert forall|i: int| 0 <= i < 16 implies a.0[i] == b.0[i] by {
            assert(a.0@[i] == b.0@[i]);
        }
        assert(a.0 =~= b.0);
    }
}

/// The two upper-case hexadecimal digits of a byte.
pub open spec fn hex2(b: u8) -> Seq<char> {
    seq![digit_char((b / 16) as int), digit_char((b % 16) as int)]
}

/// The text of an id: its bytes as two hexadecimal digits each, joined by
/// `-`.
pub open spec fn id_text(bytes: Seq<u8>) -> Seq<char>
    decreases bytes.len(),
{
    if bytes.len() == 0 {
        Seq::empty()
    } else if bytes.len() == 1 {
        hex2(bytes[0])
    } else {
        id_text(bytes.drop_last()) + seq!['-'] + hex2(bytes.last())
    }
}

impl DesktopId {
    /// The sentinel "unknown" id: all zero bytes.
    pub fn unknown() -> (r: DesktopId)
        ensures
            forall|i: int| 0 <= i < 16 ==> r.0[i] == 0,
    {
        DesktopId([0u8; 16])
    }

    /// The id is the sentinel.
    pub fn is_unknown(&self) -> (r: bool)
        ensures
            r == (forall|i: int| 0 <= i < 16 ==> self.0[i] == 0),
    {
        let mut i: usize = 0;
        while i < 16
            invariant
                i <= 16,
                forall|k: int| 0 <= k < i ==> self.0[k] == 0,
            decreases 16 - i,
        {
            if self.0[i] != 0 {
                return false;
            }
            i = i + 1;
        }
        true
    }

    /// The id's text, as the diagnostics print it.
    pub fn text(&self) -> (r: String)
        ensures
            r@ == id_text(self.0@),
    {
        let mut out: Vec<char> = Vec::new();
        let mut i: usize = 0;
        assert(self.0@.subrange(0, 0) =~= Seq::<u8>::empty());
        while i < 16
            invariant
                i <= 16,
                self.0@.len() == 16,
                out@ == id_text(self.0@.subrange(0, i as int)),
            decreases 16 - i,
        {
            let b = self.0[i];
            if i > 0 {
                out.push('-');
            }
            let hi = crate::text::digit_of((b / 16) as u64);
            let lo = crate::text::digit_of((b % 16) as u64);
            out.push(hi);
            out.push(lo);
            assert(self.0@.subrange(0, i + 1).drop_last() =~= self.0@.subrange(0, i as int));
            i = i + 1;
            assert(out@ =~= id_text(self.0@.subrange(0, i as int)));
        }
        assert(self.0@.subrange(0, 16) =~= self.0@);
        string_from_chars(out.as_slice())
    }
}

/// The first position of `id` in `desktops`, or `-1`.
pub open spec fn desktop_pos(desktops: Seq<DesktopId>, id: DesktopId) -> int {
    crate::seqs::first_index(desktops, is_desktop(id))
}

/// The desktop is `id`.
pub open spec fn is_desktop(id: DesktopId) -> spec_fn(DesktopId) -> bool {
    |d: DesktopId| d == id
}

/// The first position of `id` in `desktops`.
pub fn position_of(desktops: &[DesktopId], id: DesktopId) -> (r: Option<usize>)
    ensures
        match r {
            Some(p) => p == desktop_pos(desktops@, id),
            None => desktop_pos(desktops@, id) == -1,
        },
{
    let mut i: usize = 0;
    while i < desktops.len()
        invariant
            i <= desktops@.len(),
            forall|k: int| 0 <= k < i ==> !is_desktop(id)(#[trigger] desktops@[k]),
        decreases desktops@.len() - i,
    {
        proof {
            lemma_id_eq(desktops@[i as int], id);
        }
        if desktops[i] == id {
            proof {
                lemma_id_eq(desktops@[i as int], id);
                crate::seqs::lemma_first_index_at(desktops@, is_desktop(id), i as int);
            }
            return Some(i);
        }
        i = i + 1;
    }
    proof {
        crate::seqs::lemma_first_index_none(desktops@, is_desktop(id));
    }
    None
}

/// The message for a window on a desktop the enumeration does not list.
pub open spec fn unknown_desktop_message(hwnd: u64, id: DesktopId) -> Seq<char> {
    "window "@ + decimal(hwnd as nat) + " on unknown desktop "@ + id_text(id.0@)
}

/// The workspace number of an enumeration position: the position plus
/// one, taken as a byte (wrapping).
pub fn position_byte(pos: usize) -> (v: u8)
    ensures
        v == ((pos + 1) as u8),
{
    let low: u8 = (pos % 256) as u8;
    let v = low.wrapping_add(1);
    assert(v == ((pos + 1) as u8)) by (bit_vector)
        requires
            low == (pos % 256) as u8,
            v == (if low == 255 { 0u8 } else { (low + 1) as u8 }),
    ;
    v
}

/// A length taken as a byte (wrapping).
pub fn length_byte(len: usize) -> (v: u8)
    ensures
        v == (len as u8),
{
    let v = (len % 256) as u8;
    assert(v == (len as u8)) by (bit_vector)
        requires
            v == (len % 256) as u8,
    ;
    v
}

/// The workspace at a position of the enumeration: position `p` is
/// workspace `p + 1`, its number taken as a byte.
pub fn workspace_at(pos: usize) -> (r: Result<WorkspaceIndex, JacqueError>)
    ensures
        ({
            let v = ((pos + 1) as u8);
            if 1 <= v <= 9 {
                r matches Ok(w) && w.value() == v
            } else {
                r == Err::<WorkspaceIndex, JacqueError>(JacqueError::InvalidWorkspaceIndex(v))
            }
        }),
{
    WorkspaceIndex::new(position_byte(pos))
}

/// The error `switch_to_window` reports for a window whose desktop is not
/// in the enumeration.
pub fn unknown_desktop_error(hwnd: u64, id: DesktopId) -> (e: JacqueError)
    ensures
        e matches JacqueError::Other(m) && m@ == unknown_desktop_message(hwnd, id),
{
    let mut out: Vec<char> = Vec::new();
    push_str(&mut out, "window ");
    push_decimal(hwnd, &mut out);
    push_str(&mut out, " on unknown desktop ");
    let t = id.text();
    push_str(&mut out, t.as_str());
    assert(out@ =~= unknown_desktop_message(hwnd, id));
    JacqueError::Other(string_from_chars(out.as_slice()))
}

/// The desktop operations the core relies on; the platform layer
/// implements them. The order of [`Self::enumerate`] is part of the
/// contract: position 0 is workspace 1.
pub trait VirtualDesktopAdapter {
    /// `answer` is a possible answer of this adapter to an enumeration.
    spec fn listed(&self, answer: Result<Vec<DesktopId>, JacqueError>) -> bool;

    /// `answer` is a possible answer to asking for the current desktop.
    spec fn current_answer(&self, answer: Result<DesktopId, JacqueError>) -> bool;

    /// `answer` is a possible answer to a switch to `index`.
    spec fn switch_answer(&self, index: WorkspaceIndex, answer: Result<(), JacqueError>) -> bool;

    /// `answer` is a possible answer to creating a desktop.
    spec fn create_answer(&self, answer: Result<DesktopId, JacqueError>) -> bool;

    /// `answer` is a possible answer to moving window `hwnd` to `index`.
    spec fn move_answer(&self, hwnd: u64, index: WorkspaceIndex, answer: Result<(), JacqueError>) -> bool;

    /// `answer` is a possible answer to asking which desktop holds `hwnd`.
    spec fn desktop_answer(&self, hwnd: u64, answer: Result<DesktopId, JacqueError>) -> bool;

    /// The desktops in their natural order.
    fn enumerate(&self) -> (r: Result<Vec<DesktopId>, JacqueError>)
        ensures
            self.listed(r);

    /// The desktop the user is looking at.
    fn current(&self) -> (r: Result<DesktopId, JacqueError>)
        ensures
            self.current_answer(r);

    /// Switch to the desktop at the workspace's position.
    fn switch_to(&self, index: WorkspaceIndex) -> (r: Result<(), JacqueError>)
        ensures
            self.switch_answer(index, r);

    /// Create a desktop at the end of the enumeration.
    fn create(&self) -> (r: Result<DesktopId, JacqueError>)
        ensures
            self.create_answer(r);

    /// Move a window to the desktop at the workspace's position.
    fn move_window(&self, hwnd: u64, index: WorkspaceIndex) -> (r: Result<(), JacqueError>)
        ensures
            self.move_answer(hwnd, index, r);

    /// The desktop a window is on.
    fn window_desktop(&self, hwnd: u64) -> (r: Result<DesktopId, JacqueError>)
        ensures
            self.desktop_answer(hwnd, r);

    /// The number of desktops: the length of an enumeration, or its error.
    fn count(&self) -> (r: Result<usize, JacqueError>)
        ensures
            exists|answer: Result<Vec<DesktopId>, JacqueError>| #[trigger] self.listed(answer) && r == (match answer {
                Ok(d) => Ok::<usize, JacqueError>(d@.len() as usize),
                Err(e) => Err(e),
            }),
    {
        match self.enumerate() {
            Ok(v) => Ok(v.len()),
            Err(e) => Err(e),
        }
    }

    /// Switch to the desktop holding the window: the window's desktop is
    /// looked up in the enumeration and its position's workspace selected
    /// ([`window_switch_step`] of the adapter's answers).
    fn switch_to_window(&self, hwnd: u64) -> (r: Result<(), JacqueError>)
        ensures
            exists|found: Result<DesktopId, JacqueError>, answer: Result<Vec<DesktopId>, JacqueError>|
                self.desktop_answer(hwnd, found) && (found is Ok ==> self.listed(answer))
                && match #[trigger] window_switch_step(found, listing(answer)) {
                    WindowSwitchStep::Passed(e) => r == Err::<(), JacqueError>(e),
                    WindowSwitchStep::Unknown(id) => r matches Err(JacqueError::Other(m)) && m@ == unknown_desktop_message(hwnd, id),
                    WindowSwitchStep::BadIndex(v) => r == Err::<(), JacqueError>(JacqueError::InvalidWorkspaceIndex(v)),
                    WindowSwitchStep::Switch(w) => self.switch_answer(w, r),
                },
    {
        let id = match self.window_desktop(hwnd) {
            Ok(id) => id,
            Err(e) => {
                assert(window_switch_step(Err(e), listing(Err(e))) == WindowSwitchStep::Passed(e));
                return Err(e);
            },
        };
        let desktops = match self.enumerate() {
            Ok(d) => d,
            Err(e) => {
                assert(window_switch_step(Ok(id), listing(Err(e))) == WindowSwitchStep::Passed(e));
                return Err(e);
            },
        };
        let ghost answer: Result<Vec<DesktopId>, JacqueError> = Ok(desktops);
        let ghost ds = desktops@;
        assert(listing(answer) == Ok::<Seq<DesktopId>, JacqueError>(ds));
        let pos = match position_of(desktops.as_slice(), id) {
            Some(p) => p,
            None => {
                let r = Err(unknown_desktop_error(hwnd, id));
                assert(window_switch_step(Ok(id), listing(answer)) == WindowSwitchStep::Unknown(id));
                return r;
            },
        };
        let idx = match workspace_at(pos) {
            Ok(i) => i,
            Err(e) => {
                assert(window_switch_step(Ok(id), listing(answer)) == WindowSwitchStep::BadIndex(((pos + 1) as u8)));
                return Err(e);
            },
        };
        proof {
            WorkspaceIndex::lemma_value_injective(idx, WorkspaceIndex::with_value(((pos + 1) as u8)));
            WorkspaceIndex::lemma_with_value(((pos + 1) as u8));
        }
        let r = self.switch_to(idx);
        assert(window_switch_step(Ok(id), listing(answer)) == WindowSwitchStep::Switch(idx));
        r
    }
}

/// The view of an enumeration answer.
pub open spec fn listing(r: Result<Vec<DesktopId>, JacqueError>) -> Result<Seq<DesktopId>, JacqueError> {
    match r {
        Ok(v) => Ok(v@),
        Err(e) => Err(e),
    }
}

/// What switching to a window's desktop comes to.
pub enum WindowSwitchStep {
    /// The adapter's error, passed on.
    Passed(JacqueError),
    /// The window's desktop is not in the enumeration.
    Unknown(DesktopId),
    /// The desktop's position is beyond the ninth; the number it gave.
    BadIndex(u8),
    /// Switch to this workspace.
    Switch(WorkspaceIndex),
}

/// The step [`VirtualDesktopAdapter::switch_to_window`] takes, from the
/// adapter's answer on the window's desktop and its enumeration: a failure
/// of either is passed on, a desktop missing from the enumeration is
/// reported, a position beyond the ninth refused, and otherwise the
/// position's workspace is switched to.
pub open spec fn window_switch_step(
    found: Result<DesktopId, JacqueError>,
    answer: Result<Seq<DesktopId>, JacqueError>,
) -> WindowSwitchStep {
    match found {
        Err(e) => WindowSwitchStep::Passed(e),
        Ok(id) => match answer {
            Err(e) => WindowSwitchStep::Passed(e),
            Ok(ds) => {
                let p = desktop_pos(ds, id);
                if p < 0 {
                    WindowSwitchStep::Unknown(id)
                } else {
                    let v = (p + 1) as u8;
                    if 1 <= v <= 9 {
                        WindowSwitchStep::Switch(WorkspaceIndex::with_value(v))
                    } else {
                        WindowSwitchStep::BadIndex(v)
                    }
                }
            },
        },
    }
}

} // verus!
