//! The workspace engine: the desktops the shell reports, the current
//! workspace, creating missing desktops and switching, all through a
//! [`VirtualDesktopAdapter`].

use vstd::prelude::*;
use crate::error::{message, JacqueError};
use crate::text::{decimal, push_decimal, push_str, string_from_chars};
use crate::virtual_desktop::{desktop_pos, listing, position_of, DesktopId, VirtualDesktopAdapter};
use crate::workspace::WorkspaceIndex;

verus! {

/// The engine's view of the desktops.
#[derive(Debug)]
pub struct WorkspaceState {
    /// The workspace the user is on.
    pub current: WorkspaceIndex,
    /// The desktops in the shell's order.
    pub desktops: Vec<DesktopId>,
    /// The number of desktops, as a byte.
    pub count: u8,
}

/// The abstract value of a [`WorkspaceState`].
pub struct StateView {
    pub current: WorkspaceIndex,
    pub desktops: Seq<DesktopId>,
    pub count: u8,
}

impl View for WorkspaceState {
    type V = StateView;

    open spec fn view(&self) -> StateView {
        StateView { current: self.current, desktops: self.desktops@, count: self.count }
    }
}

impl Clone for WorkspaceState {
    fn clone(&self) -> (r: Self)
        ensures
            r@ == self@,
    {
        let d = self.desktops.clone();
        assert(d@ =~= self.desktops@);
        WorkspaceState { current: self.current, desktops: d, count: self.count }
    }
}

/// The state for an enumeration and the desktop the user is on: the
/// current workspace is the position of that desktop plus one (taken as a
/// byte), or workspace 1 when the desktop is not listed or the number is
/// not a workspace; the count is the length taken as a byte.
pub open spec fn synced_view(desktops: Seq<DesktopId>, current: DesktopId) -> StateView {
    let p = desktop_pos(desktops, current);
    let v: u8 = if p < 0 { 1 } else { (p + 1) as u8 };
    StateView {
        current: if 1 <= v <= 9 { WorkspaceIndex::with_value(v) } else { WorkspaceIndex::first() },
        desktops,
        count: desktops.len() as u8,
    }
}

impl WorkspaceState {
    /// The exact number of workspaces is present and counted.
    pub open spec fn spec_is_complete(self) -> bool {
        self.count as int == self.desktops@.len() && self.desktops@.len() == 9
    }

    /// All nine desktops exist and the count agrees.
    pub fn is_complete(&self) -> (r: bool)
        ensures
            r == self.spec_is_complete(),
    {
        self.count as usize == self.desktops.len() && self.desktops.len() == 9
    }

    /// The state for an enumeration and the desktop the user is on (see
    /// [`synced_view`]).
    pub fn synced(desktops: Vec<DesktopId>, current: DesktopId) -> (r: Self)
        ensures
            r@ == synced_view(desktops@, current),
    {
        let v: u8 = match position_of(desktops.as_slice(), current) {
            Some(p) => crate::virtual_desktop::position_byte(p),
            None => 1,
        };
        let idx = match WorkspaceIndex::new(v) {
            Ok(w) => w,
            Err(_) => WorkspaceIndex::new_unchecked(1),
        };
        proof {
            WorkspaceIndex::lemma_with_value(1);
            WorkspaceIndex::lemma_with_value(v);
            WorkspaceIndex::lemma_value_injective(idx, WorkspaceIndex::first());
            WorkspaceIndex::lemma_value_injective(idx, WorkspaceIndex::with_value(v));
        }
        let count = crate::virtual_desktop::length_byte(desktops.len());
        WorkspaceState { current: idx, desktops, count }
    }
}

/// Why a switch to a workspace beyond the known desktops is refused.
pub open spec fn range_message(len: nat, index: u8) -> Seq<char> {
    "engine only knows "@ + decimal(len) + " desktops; index "@ + decimal(index as nat) + " is out of range"@
}

fn range_error(len: usize, index: u8) -> (e: JacqueError)
    ensures
        e matches JacqueError::DesktopSwitch { index: i, reason } && i == index && reason@ == range_message(len as nat, index),
{
    let mut out: Vec<char> = Vec::new();
    push_str(&mut out, "engine only knows ");
    push_decimal(len as u64, &mut out);
    push_str(&mut out, " desktops; index ");
    push_decimal(index as u64, &mut out);
    push_str(&mut out, " is out of range");
    assert(out@ =~= range_message(len as nat, index));
    JacqueError::DesktopSwitch { index, reason: string_from_chars(out.as_slice()) }
}

/// The workspace engine over an adapter of type `A`.
pub struct WorkspaceEngine<A> {
    adapter: A,
    state: WorkspaceState,
}

/// The most desktops [`WorkspaceEngine::ensure_workspace_count`] creates
/// before it gives up.
pub const MAX_CREATED: u8 = 255;

impl<A: VirtualDesktopAdapter> WorkspaceEngine<A> {
    /// The engine's state.
    pub closed spec fn state_view(&self) -> StateView {
        self.state@
    }

    /// The adapter.
    pub closed spec fn adapter_value(&self) -> A {
        self.adapter
    }

    /// An engine synchronised with the shell: the adapter's enumeration and
    /// current desktop, or the first error either reported
    /// ([`sync_outcome`] of the two answers).
    pub fn new(adapter: A) -> (r: Result<Self, JacqueError>)
        ensures
            r matches Ok(e) ==> e.adapter_value() == adapter,
            exists|listed: Result<Vec<DesktopId>, JacqueError>, cur: Result<DesktopId, JacqueError>|
                adapter.listed(listed) && (listed is Ok ==> adapter.current_answer(cur))
                && #[trigger] sync_outcome(listing(listed), cur) == (match r {
                    Ok(e) => Ok(e.state_view()),
                    Err(e) => Err(e),
                }),
    {
        let desktops = match adapter.enumerate() {
            Ok(d) => d,
            Err(e) => {
                assert(sync_outcome(listing(Err(e)), Err(e)) == Err::<StateView, JacqueError>(e));
                return Err(e);
            },
        };
        let current = match adapter.current() {
            Ok(c) => c,
            Err(e) => {
                assert(sync_outcome(listing(Ok(desktops)), Err(e)) == Err::<StateView, JacqueError>(e));
                return Err(e);
            },
        };
        let ghost d: Result<Vec<DesktopId>, JacqueError> = Ok(desktops);
        let state = WorkspaceState::synced(desktops, current);
        let r = WorkspaceEngine { adapter, state };
        assert(sync_outcome(listing(d), Ok(current)) == Ok::<StateView, JacqueError>(r.state_view()));
        Ok(r)
    }

    /// The current workspace.
    pub fn current(&self) -> (r: WorkspaceIndex)
        ensures
            r == self.state_view().current,
    {
        self.state.current
    }

    /// A copy of the state.
    pub fn snapshot(&self) -> (r: WorkspaceState)
        ensures
            r@ == self.state_view(),
    {
        self.state.clone()
    }

    /// The adapter, for the other subsystems.
    pub fn adapter(&self) -> (r: &A)
        ensures
            *r == self.adapter_value(),
    {
        &self.adapter
    }

    /// Re-read the enumeration and the current desktop; on an error the
    /// state is unchanged. The outcome is [`refresh_outcome`] of the
    /// adapter's two answers.
    pub fn refresh(&mut self) -> (r: Result<(), JacqueError>)
        ensures
            final(self).adapter_value() == old(self).adapter_value(),
            r is Err ==> final(self).state_view() == old(self).state_view(),
            exists|listed: Result<Vec<DesktopId>, JacqueError>, cur: Result<DesktopId, JacqueError>|
                old(self).adapter_value().listed(listed) && (listed is Ok ==> old(self).adapter_value().current_answer(cur))
                && #[trigger] refresh_outcome(old(self).state_view(), listing(listed), cur) == (r, final(self).state_view()),
    {
        let desktops = match self.adapter.enumerate() {
            Ok(d) => d,
            Err(e) => {
                let r: Result<(), JacqueError> = Err(e);
                assert(refresh_outcome(old(self).state_view(), listing(Err(e)), Err(e)) == (r, self.state_view()));
                return r;
            },
        };
        let current = match self.adapter.current() {
            Ok(c) => c,
            Err(e) => {
                let r: Result<(), JacqueError> = Err(e);
                assert(refresh_outcome(old(self).state_view(), listing(Ok(desktops)), Err(e)) == (r, self.state_view()));
                return r;
            },
        };
        let ghost d: Result<Vec<DesktopId>, JacqueError> = Ok(desktops);
        self.state = WorkspaceState::synced(desktops, current);
        assert(refresh_outcome(old(self).state_view(), listing(d), Ok(current)) == (Ok::<(), JacqueError>(()), self.state_view()));
        Ok(())
    }

    /// Create desktops until the shell reports at least `target_count`,
    /// then refresh and return the new count. A target outside `1..=9` is
    /// refused with [`JacqueError::InvalidWorkspaceIndex`]; adapter errors
    /// are passed on; after 255 creations that did not reach the target the
    /// engine stops with [`JacqueError::DesktopCreate`] ([`gave_up`]). On
    /// any error the state is unchanged; on success it is the refresh of
    /// what the adapter then reported.
    pub fn ensure_workspace_count(&mut self, target_count: u8) -> (r: Result<u8, JacqueError>)
        ensures
            final(self).adapter_value() == old(self).adapter_value(),
            !(1 <= target_count <= 9) ==> r == Err::<u8, JacqueError>(JacqueError::InvalidWorkspaceIndex(target_count)),
            r is Err ==> final(self).state_view() == old(self).state_view(),
            1 <= target_count <= 9 ==> (r matches Err(e) ==> adapter_reported(old(self).adapter_value(), e)
                || gave_up(old(self).adapter_value(), target_count, e)),
            r matches Ok(n) ==> n == final(self).state_view().count,
            r is Ok ==> exists|listed: Result<Vec<DesktopId>, JacqueError>, cur: Result<DesktopId, JacqueError>|
                old(self).adapter_value().listed(listed) && (listed is Ok ==> old(self).adapter_value().current_answer(cur))
                && #[trigger] refresh_outcome(old(self).state_view(), listing(listed), cur) == (Ok::<(), JacqueError>(()), final(self).state_view()),
            r is Ok ==> exists|reported: Vec<DesktopId>| old(self).adapter_value().listed(Ok(reported))
                && !#[trigger] desktop_needed(reported@.len() as usize, target_count),
    {
        if target_count == 0 || target_count > WorkspaceIndex::COUNT {
            return Err(JacqueError::InvalidWorkspaceIndex(target_count));
        }
        let mut created: u8 = 0;
        let ghost mut reached = false;
        let ghost mut reported: Vec<DesktopId> = arbitrary();
        let ghost mut seen: Seq<Vec<DesktopId>> = Seq::empty();
        let ghost mut made: Seq<DesktopId> = Seq::empty();
        loop
            invariant_except_break
                !reached,
                seen.len() == created,
                made.len() == created,
            invariant
                1 <= target_count <= 9,
                self.adapter == old(self).adapter,
                self.state == old(self).state,
                forall|i: int| 0 <= i < seen.len() ==> old(self).adapter_value().listed(Ok(#[trigger] seen[i]))
                    && desktop_needed(seen[i]@.len() as usize, target_count),
                forall|i: int| 0 <= i < made.len() ==> old(self).adapter_value().create_answer(Ok(#[trigger] made[i])),
            ensures
                reached && !desktop_needed(reported@.len() as usize, target_count),
                old(self).adapter_value().listed(Ok(reported)),
                self.state == old(self).state,
            decreases MAX_CREATED - created,
        {
            let listed = self.adapter.enumerate();
            let ghost answer = listed;
            let current: usize = match listed {
                Ok(v) => v.len(),
                Err(e) => {
                    assert(adapter_reported(old(self).adapter_value(), e));
                    return Err(e);
                },
            };
            if !needs_desktop(current, target_count) {
                proof {
                    reached = true;
                    reported = answer->Ok_0;
                }
                break;
            }
            proof {
                seen = seen.push(answer->Ok_0);
            }
            let made_one = self.adapter.create();
            let ghost made_answer = made_one;
            match made_one {
                Ok(_) => {},
                Err(e) => {
                    assert(adapter_reported(old(self).adapter_value(), e));
                    return Err(e);
                },
            }
            proof {
                made = made.push(made_answer->Ok_0);
            }
            if created == MAX_CREATED {
                let e = JacqueError::DesktopCreate(crate::text::owned("desktop count did not reach the target"));
                proof {
                    reveal_strlit("desktop count did not reach the target");
                    assert(seen.len() == MAX_CREATED + 1 && made.len() == MAX_CREATED + 1);
                    assert(gave_up(old(self).adapter_value(), target_count, e));
                }
                return Err(e);
            }
            created = created + 1;
        }
        assert(!desktop_needed(reported@.len() as usize, target_count));
        let r = self.refresh();
        proof {
            if r is Err {
                let (listed, cur) = choose|listed: Result<Vec<DesktopId>, JacqueError>, cur: Result<DesktopId, JacqueError>|
                    self.adapter_value().listed(listed) && (listed is Ok ==> self.adapter_value().current_answer(cur))
                    && #[trigger] refresh_outcome(old(self).state_view(), listing(listed), cur) == (r, self.state_view());
                if listed is Err {
                    assert(old(self).adapter_value().listed(Err(r->Err_0)));
                } else {
                    assert(old(self).adapter_value().current_answer(Err(r->Err_0)));
                }
                assert(adapter_reported(old(self).adapter_value(), r->Err_0));
            }
        }
        match r {
            Ok(()) => Ok(self.state.count),
            Err(e) => Err(e),
        }
    }

    /// Switch to a workspace. A workspace beyond the known desktops is
    /// refused with [`JacqueError::DesktopSwitch`] and a message naming the
    /// count; an adapter failure becomes a `DesktopSwitch` with the
    /// adapter's message; on success the state is refreshed.
    pub fn switch_to(&mut self, index: WorkspaceIndex) -> (r: Result<(), JacqueError>)
        ensures
            final(self).adapter_value() == old(self).adapter_value(),
            index.value() > old(self).state_view().desktops.len() ==> (r matches Err(JacqueError::DesktopSwitch { index: i, reason })
                && i == index.value() && reason@ == range_message(old(self).state_view().desktops.len(), index.value())
                && final(self).state_view() == old(self).state_view()),
            index.value() <= old(self).state_view().desktops.len() ==> exists|
                switched: Result<(), JacqueError>,
                listed: Result<Vec<DesktopId>, JacqueError>,
                cur: Result<DesktopId, JacqueError>,
            | old(self).adapter_value().switch_answer(index, switched)
                && (switched is Ok ==> old(self).adapter_value().listed(listed))
                && (switched is Ok && listed is Ok ==> old(self).adapter_value().current_answer(cur))
                && #[trigger] switch_outcome(old(self).state_view(), index, switched, listing(listed), cur, r, final(self).state_view()),
    {
        let i = index.get();
        let pos = (i - 1) as usize;
        if pos >= self.state.desktops.len() {
            return Err(range_error(self.state.desktops.len(), i));
        }
        let switched = self.adapter.switch_to(index);
        assert(old(self).adapter_value().switch_answer(index, switched));
        match switched {
            Ok(()) => {},
            Err(e) => {
                let r: Result<(), JacqueError> = Err(switch_error(index, &e));
                assert(switch_outcome(old(self).state_view(), index, Err(e), listing(Err(e)), Err(e), r, self.state_view()));
                return r;
            },
        }
        let r = self.refresh();
        proof {
            let (listed, cur) = choose|listed: Result<Vec<DesktopId>, JacqueError>, cur: Result<DesktopId, JacqueError>|
                self.adapter_value().listed(listed) && (listed is Ok ==> self.adapter_value().current_answer(cur))
                && #[trigger] refresh_outcome(old(self).state_view(), listing(listed), cur) == (r, self.state_view());
            assert(old(self).adapter_value().listed(listed));
            assert(listed is Ok ==> old(self).adapter_value().current_answer(cur));
            assert(switch_outcome(old(self).state_view(), index, switched, listing(listed), cur, r, self.state_view()));
            assert(old(self).adapter_value().switch_answer(index, switched));
        }
        r
    }
}

/// The adapter itself reported `e`: to an enumeration, a creation or a
/// request for the current desktop.
pub open spec fn adapter_reported<A: VirtualDesktopAdapter>(a: A, e: JacqueError) -> bool {
    a.listed(Err(e)) || a.create_answer(Err(e)) || a.current_answer(Err(e))
}

/// `e` is the engine giving up on reaching `target`: the adapter created a
/// desktop 256 times, and each enumeration before those creations reported
/// fewer desktops than the target.
pub open spec fn gave_up<A: VirtualDesktopAdapter>(a: A, target: u8, e: JacqueError) -> bool {
    &&& e matches JacqueError::DesktopCreate(m) && m@ == "desktop count did not reach the target"@
    &&& exists|seen: Seq<Vec<DesktopId>>, made: Seq<DesktopId>| {
        &&& #[trigger] seen.len() == MAX_CREATED + 1
        &&& #[trigger] made.len() == MAX_CREATED + 1
        &&& forall|i: int| 0 <= i < seen.len() ==> a.listed(Ok(#[trigger] seen[i])) && desktop_needed(seen[i]@.len() as usize, target)
        &&& forall|i: int| 0 <= i < made.len() ==> a.create_answer(Ok(#[trigger] made[i]))
    }
}

/// Another desktop is needed while the shell reports fewer than `target`
/// desktops (the count taken as a byte).
pub open spec fn desktop_needed(current: usize, target: u8) -> bool {
    (current as u8) < target
}

/// Whether another desktop must be created, given the count the shell
/// reported and the target.
pub fn needs_desktop(current: usize, target: u8) -> (r: bool)
    ensures
        r == desktop_needed(current, target),
{
    crate::virtual_desktop::length_byte(current) < target
}

/// What synchronising with the shell gives, from the adapter's enumeration
/// and current desktop: the synced state, or the first error.
pub open spec fn sync_outcome(listed: Result<Seq<DesktopId>, JacqueError>, cur: Result<DesktopId, JacqueError>) -> Result<StateView, JacqueError> {
    match listed {
        Err(e) => Err(e),
        Ok(d) => match cur {
            Err(e) => Err(e),
            Ok(c) => Ok(synced_view(d, c)),
        },
    }
}

/// What a refresh returns and leaves, from the state before and the
/// adapter's two answers: on an error the state is kept.
pub open spec fn refresh_outcome(
    before: StateView,
    listed: Result<Seq<DesktopId>, JacqueError>,
    cur: Result<DesktopId, JacqueError>,
) -> (Result<(), JacqueError>, StateView) {
    match sync_outcome(listed, cur) {
        Ok(v) => (Ok(()), v),
        Err(e) => (Err(e), before),
    }
}

/// The error a failed switch to `index` reports: the workspace and the
/// adapter's message.
pub fn switch_error(index: WorkspaceIndex, cause: &JacqueError) -> (e: JacqueError)
    ensures
        e matches JacqueError::DesktopSwitch { index: i, reason } && i == index.value()
            && reason@ == crate::error::message(*cause),
{
    JacqueError::DesktopSwitch { index: index.get(), reason: cause.describe() }
}

/// What a switch to a known workspace comes to, from the state before and
/// the adapter's answers to the switch and to the refresh that follows: a
/// failed switch gives [`switch_error`] and keeps the state.
pub open spec fn switch_outcome(
    before: StateView,
    index: WorkspaceIndex,
    switched: Result<(), JacqueError>,
    listed: Result<Seq<DesktopId>, JacqueError>,
    cur: Result<DesktopId, JacqueError>,
    r: Result<(), JacqueError>,
    after: StateView,
) -> bool {
    match switched {
        Err(e) => {
            &&& after == before
            &&& r matches Err(m) && m matches JacqueError::DesktopSwitch { index: i, reason }
                && i == index.value() && reason@ == crate::error::message(e)
        },
        Ok(()) => refresh_outcome(before, listed, cur) == (r, after),
    }
}

/// The engine as the other subsystems see it; the shared engine service
/// implements it.
pub trait WorkspaceEngineTrait {
    /// `answer` is a possible answer of this engine to a switch to `index`.
    spec fn switch_answer(&self, index: WorkspaceIndex, answer: Result<(), JacqueError>) -> bool;

    /// Switch to the given workspace.
    fn switch_to(&self, index: WorkspaceIndex) -> (r: Result<(), JacqueError>)
        ensures
            self.switch_answer(index, r);
    /// The current workspace.
    fn current(&self) -> WorkspaceIndex;
}

} // verus!
