//! In-app notifications: requests, the active set ordered by age, the cap
//! on visible toasts, replacement by id and expiry.

use vstd::prelude::*;
use crate::seqs::sort_by;
use std::time::{Duration, SystemTime, SystemTimeError, UNIX_EPOCH};
use crate::text::owned;

verus! {

/// User-visible severity; it selects a colour only.
#[derive(Clone, Copy, Debug, PartialEq, Eq, Hash, Structural)]
pub enum Severity {
    Info,
    Success,
    Warning,
    Error,
}

impl Severity {
    /// The glyph drawn in the popup corner.
    pub fn glyph(self) -> (r: &'static str)
        ensures
            r@ == (match self {
                Severity::Info => "\u{b7}"@,
                Severity::Success => "\u{2713}"@,
                Severity::Warning => "!"@,
                Severity::Error => "\u{2717}"@,
            }),
    {
        match self {
            Severity::Info => "\u{b7}",
            Severity::Success => "\u{2713}",
            Severity::Warning => "!",
            Severity::Error => "\u{2717}",
        }
    }
}

/// A request for one toast.
#[derive(Debug, PartialEq, Eq)]
pub struct NotificationRequest {
    /// Short title.
    pub title: String,
    /// Body text.
    pub body: String,
    pub severity: Severity,
    /// Auto-dismiss delay in milliseconds; `None` uses the manager's default.
    pub timeout_ms: Option<u32>,
    /// Stable id; a request with the id of a shown toast replaces it.
    pub id: Option<u64>,
}

/// The abstract value of a [`NotificationRequest`].
pub struct RequestView {
    pub title: Seq<char>,
    pub body: Seq<char>,
    pub severity: Severity,
    pub timeout_ms: Option<u32>,
    pub id: Option<u64>,
}

impl View for NotificationRequest {
    type V = RequestView;

    open spec fn view(&self) -> RequestView {
        RequestView {
            title: self.title@,
            body: self.body@,
            severity: self.severity,
            timeout_ms: self.timeout_ms,
            id: self.id,
        }
    }
}

impl Clone for NotificationRequest {
    fn clone(&self) -> (r: Self)
        ensures
            r@ == self@,
    {
        NotificationRequest {
            title: self.title.clone(),
            body: self.body.clone(),
            severity: self.severity,
            timeout_ms: self.timeout_ms,
            id: self.id,
        }
    }
}

/// A request of the given severity with no timeout override and no id.
pub open spec fn plain_request(title: Seq<char>, body: Seq<char>, severity: Severity) -> RequestView {
    RequestView { title, body, severity, timeout_ms: None, id: None }
}

impl NotificationRequest {
    fn with_severity(title: &str, body: &str, severity: Severity) -> (r: Self)
        ensures
            r@ == plain_request(title@, body@, severity),
    {
        NotificationRequest { title: owned(title), body: owned(body), severity, timeout_ms: None, id: None }
    }

    /// An informational toast.
    pub fn info(title: &str, body: &str) -> (r: Self)
        ensures
            r@ == plain_request(title@, body@, Severity::Info),
    {
        Self::with_severity(title, body, Severity::Info)
    }

    /// A success toast.
    pub fn success(title: &str, body: &str) -> (r: Self)
        ensures
            r@ == plain_request(title@, body@, Severity::Success),
    {
        Self::with_severity(title, body, Severity::Success)
    }

    /// A warning toast.
    pub fn warning(title: &str, body: &str) -> (r: Self)
        ensures
            r@ == plain_request(title@, body@, Severity::Warning),
    {
        Self::with_severity(title, body, Severity::Warning)
    }

    /// An error toast.
    pub fn error(title: &str, body: &str) -> (r: Self)
        ensures
            r@ == plain_request(title@, body@, Severity::Error),
    {
        Self::with_severity(title, body, Severity::Error)
    }
}

/// One toast being shown.
#[derive(Debug)]
pub struct ActiveNotification {
    pub id: u64,
    pub request: NotificationRequest,
    /// Clock reading, in milliseconds, when the toast was submitted.
    pub born_at_ms: u64,
    /// Milliseconds the toast stays up.
    pub slots_until_dismiss_ms: u32,
}

/// The abstract value of an [`ActiveNotification`].
pub struct ActiveView {
    pub id: u64,
    pub request: RequestView,
    pub born_at_ms: u64,
    pub slots_until_dismiss_ms: u32,
}

impl View for ActiveNotification {
    type V = ActiveView;

    open spec fn view(&self) -> ActiveView {
        ActiveView {
            id: self.id,
            request: self.request@,
            born_at_ms: self.born_at_ms,
            slots_until_dismiss_ms: self.slots_until_dismiss_ms,
        }
    }
}

impl Clone for ActiveNotification {
    fn clone(&self) -> (r: Self)
        ensures
            r@ == self@,
    {
        ActiveNotification {
            id: self.id,
            request: self.request.clone(),
            born_at_ms: self.born_at_ms,
            slots_until_dismiss_ms: self.slots_until_dismiss_ms,
        }
    }
}

/// The views of a sequence of toasts.
pub open spec fn active_views(s: Seq<ActiveNotification>) -> Seq<ActiveView> {
    s.map_values(|a: ActiveNotification| a@)
}

/// Something that shows toasts: the platform layer implements it.
pub trait NotificationSink {
    /// Submit a new or replacing toast; returns its id.
    fn submit(&self, req: NotificationRequest) -> u64;
    /// Take a toast down.
    fn dismiss(&self, id: u64);
}

/// The toast does not carry `id`.
pub open spec fn other_id(id: u64) -> spec_fn(ActiveView) -> bool {
    |a: ActiveView| a.id != id
}

/// The newest `m` toasts of an age-ordered sequence.
pub open spec fn keep_newest(s: Seq<ActiveView>, m: int) -> Seq<ActiveView> {
    if s.len() > m { s.subrange(s.len() - m, s.len() as int) } else { s }
}

/// No two toasts share an id.
pub open spec fn ids_distinct(s: Seq<ActiveView>) -> bool {
    forall|i: int, j: int| 0 <= i < j < s.len() ==> s[i].id != s[j].id
}

/// The toast has been up at least its duration at time `now`.
pub open spec fn expired_at(now: u64) -> spec_fn(ActiveView) -> bool {
    |a: ActiveView| (if now >= a.born_at_ms { now - a.born_at_ms } else { 0 }) >= a.slots_until_dismiss_ms
}

/// The toast has not yet expired at time `now`.
pub open spec fn live_at(now: u64) -> spec_fn(ActiveView) -> bool {
    |a: ActiveView| !expired_at(now)(a)
}

/// Toasts ordered by submission time.
pub open spec fn by_birth() -> spec_fn(ActiveView, ActiveView) -> bool {
    |a: ActiveView, b: ActiveView| a.born_at_ms <= b.born_at_ms
}

#[verifier::external_type_specification]
#[verifier::external_body]
pub struct ExSystemTime(std::time::SystemTime);

#[verifier::external_type_specification]
#[verifier::external_body]
pub struct ExSystemTimeError(std::time::SystemTimeError);

/// `SystemTime::now`: a reading of the system clock. Nothing is stated of
/// it; it depends on the time.
#[verifier::external_body]
fn system_now() -> SystemTime {
    SystemTime::now()
}

/// `std::time::UNIX_EPOCH`: the start of Unix time. Nothing is stated of
/// it; the value is opaque.
#[verifier::external_body]
fn unix_epoch() -> SystemTime {
    UNIX_EPOCH
}

/// `SystemTime::duration_since`: the span from `earlier` to `t`, or an
/// error when `earlier` is later. Nothing is stated: both instants are
/// opaque readings of the clock.
#[verifier::external_body]
fn duration_since(t: SystemTime, earlier: SystemTime) -> Result<Duration, SystemTimeError> {
    t.duration_since(earlier)
}

/// `Duration::as_millis`: the whole milliseconds in `d`. Nothing is
/// stated: the only spans read here come from the clock.
#[verifier::external_body]
fn whole_millis(d: Duration) -> u128 {
    d.as_millis()
}

/// The milliseconds since the Unix epoch on the system clock (the low 64
/// bits), 0 when the clock reads earlier than the epoch.
fn now_ms() -> u64 {
    match duration_since(system_now(), unix_epoch()) {
        Ok(d) => {
            let ms = whole_millis(d);
            #[verifier::truncate]
            (ms as u64)
        },
        Err(_) => 0,
    }
}

/// Removing the toasts that fail a test keeps the ids distinct.
pub proof fn lemma_filter_keeps_distinct(s: Seq<ActiveView>, p: spec_fn(ActiveView) -> bool)
    requires
        ids_distinct(s),
    ensures
        ids_distinct(s.filter(p)),
        forall|i: int| 0 <= i < s.filter(p).len() ==> s.contains(#[trigger] s.filter(p)[i]),
    decreases s.len(),
{
    reveal(Seq::filter);
    if s.len() > 0 {
        let d = s.drop_last();
        assert(ids_distinct(d));
        lemma_filter_keeps_distinct(d, p);
        let f = d.filter(p);
        assert forall|i: int| 0 <= i < f.len() implies #[trigger] f[i].id != s.last().id by {
            assert(d.contains(f[i]));
            let k = choose|k: int| 0 <= k < d.len() && d[k] == f[i];
            assert(s[k] == d[k]);
        }
        assert forall|i: int| 0 <= i < s.filter(p).len() implies s.contains(#[trigger] s.filter(p)[i]) by {
            if i < f.len() {
                assert(d.contains(f[i]));
                let k = choose|k: int| 0 <= k < d.len() && d[k] == f[i];
                assert(s[k] == d[k]);
            } else {
                assert(s.filter(p)[i] == s[s.len() - 1]);
            }
        }
    }
}

/// A submitted toast is shown as the newest one and is the only toast
/// with its id (when the cap allows any toast at all).
pub proof fn lemma_submit_shows_newest(shown: Seq<ActiveView>, entry: ActiveView, cap: int)
    requires
        ids_distinct(shown),
        cap > 0,
    ensures
        ({
            let after = keep_newest(shown.filter(other_id(entry.id)).push(entry), cap);
            &&& after.len() > 0
            &&& after.last() == entry
            &&& forall|i: int| 0 <= i < after.len() - 1 ==> (#[trigger] after[i]).id != entry.id
            &&& after.len() <= cap
        }),
{
    let f = shown.filter(other_id(entry.id));
    let pushed = f.push(entry);
    assert forall|i: int| 0 <= i < f.len() implies #[trigger] f[i].id != entry.id by {
        shown.lemma_filter_pred(other_id(entry.id), i);
    }
    let after = keep_newest(pushed, cap);
    assert forall|i: int| 0 <= i < after.len() - 1 implies (#[trigger] after[i]).id != entry.id by {
        if pushed.len() > cap {
            assert(after[i] == pushed[pushed.len() - cap + i]);
        } else {
            assert(after[i] == pushed[i]);
        }
    }
}

/// The toast manager: the active toasts from oldest to newest, the default
/// duration, the cap on visible toasts and the next automatic id.
pub struct NotificationManager {
    active: Vec<ActiveNotification>,
    default_duration_ms: u32,
    max_visible: usize,
    seq: u64,
}

impl NotificationManager {
    /// The active toasts, oldest first.
    pub closed spec fn shown(&self) -> Seq<ActiveView> {
        active_views(self.active@)
    }

    /// The duration used when a request sets none.
    pub closed spec fn default_duration(&self) -> u32 {
        self.default_duration_ms
    }

    /// The cap on visible toasts.
    pub closed spec fn cap(&self) -> int {
        self.max_visible as int
    }

    /// The id the next request without one receives.
    pub closed spec fn next_id(&self) -> u64 {
        self.seq
    }

    /// Every id is shown at most once and no more toasts than the cap are up.
    pub closed spec fn wf(&self) -> bool {
        ids_distinct(self.shown()) && self.shown().len() <= self.max_visible
    }

    /// A manager with no toast, whose automatic ids start at 1.
    pub fn new(default_duration_ms: u32, max_visible: usize) -> (r: Self)
        ensures
            r.wf(),
            r.shown() == Seq::<ActiveView>::empty(),
            r.default_duration() == default_duration_ms,
            r.cap() == max_visible,
            r.next_id() == 1,
    {
        let r = NotificationManager { active: Vec::new(), default_duration_ms, max_visible, seq: 1 };
        assert(r.shown() =~= Seq::<ActiveView>::empty());
        r
    }

    fn remove_id(&mut self, id: u64)
        ensures
            final(self).shown() == old(self).shown().filter(other_id(id)),
            final(self).default_duration() == old(self).default_duration(),
            final(self).cap() == old(self).cap(),
            final(self).next_id() == old(self).next_id(),
    {
        let ghost before = self.shown();
        let mut kept: Vec<ActiveNotification> = Vec::new();
        let mut rest: Vec<ActiveNotification> = Vec::new();
        std::mem::swap(&mut rest, &mut self.active);
        assert(active_views(rest@) == before);
        let mut i: usize = 0;
        let n = rest.len();
        reveal(Seq::filter);
        assert(before.subrange(0, 0) =~= Seq::<ActiveView>::empty());
        assert(active_views(kept@) =~= Seq::<ActiveView>::empty());
        while i < n
            invariant
                n == rest@.len(),
                active_views(rest@) == before,
                i <= n,
                active_views(kept@) == before.subrange(0, i as int).filter(other_id(id)),
            decreases n - i,
        {
            reveal(Seq::filter);
            assert(before.subrange(0, i + 1).drop_last() =~= before.subrange(0, i as int));
            assert(before.subrange(0, i + 1).last() == rest@[i as int]@);
            if rest[i].id != id {
                let a = rest[i].clone();
                let ghost prev = kept@;
                kept.push(a);
                assert(active_views(kept@) =~= active_views(prev).push(a@));
            }
            i = i + 1;
        }
        assert(before.subrange(0, n as int) =~= before);
        self.active = kept;
    }

    /// The toast a request becomes when submitted at time `now` under `id`.
    pub open spec fn entry_for(&self, req: RequestView, id: u64, now: u64) -> ActiveView {
        ActiveView {
            id,
            request: req,
            born_at_ms: now,
            slots_until_dismiss_ms: match req.timeout_ms {
                Some(t) => t,
                None => self.default_duration(),
            },
        }
    }

    /// The id a request is shown under.
    pub open spec fn id_for(&self, req: RequestView) -> u64 {
        match req.id {
            Some(i) => i,
            None => self.next_id(),
        }
    }

    /// Show a request at time `now`: it takes the caller's id, or the next
    /// automatic one; a toast with the same id is replaced; the request
    /// becomes the newest toast; the oldest toasts go until no more than the
    /// cap remain. Returns the id.
    pub fn submit_at(&mut self, req: NotificationRequest, now: u64) -> (id: u64)
        requires
            old(self).wf(),
        ensures
            final(self).wf(),
            id == old(self).id_for(req@),
            final(self).next_id() == (if req.id is None { old(self).next_id().wrapping_add(1) } else { old(self).next_id() }),
            final(self).shown() == keep_newest(
                old(self).shown().filter(other_id(id)).push(old(self).entry_for(req@, id, now)),
                old(self).cap(),
            ),
            final(self).default_duration() == old(self).default_duration(),
            final(self).cap() == old(self).cap(),
    {
        let id = match req.id {
            Some(i) => i,
            None => {
                let v = self.seq;
                self.seq = self.seq.wrapping_add(1);
                v
            },
        };
        let duration = match req.timeout_ms {
            Some(t) => t,
            None => self.default_duration_ms,
        };
        let ghost old_shown = self.shown();
        let ghost entry = ActiveView { id, request: req@, born_at_ms: now, slots_until_dismiss_ms: duration };
        self.remove_id(id);
        proof {
            lemma_filter_keeps_distinct(old_shown, other_id(id));
            let f = old_shown.filter(other_id(id));
            assert forall|i: int| 0 <= i < f.len() implies #[trigger] f[i].id != id by {
                old_shown.lemma_filter_pred(other_id(id), i);
            }
        }
        let active = ActiveNotification { id, request: req, born_at_ms: now, slots_until_dismiss_ms: duration };
        let ghost mid = self.shown();
        self.active.push(active);
        assert(self.shown() =~= mid.push(entry));
        let ghost pushed = self.shown();
        assert(ids_distinct(pushed));
        while self.active.len() > self.max_visible
            invariant
                ids_distinct(pushed),
                pushed.len() >= self.active@.len(),
                self.shown() == pushed.subrange(pushed.len() - self.active@.len(), pushed.len() as int),
                self.max_visible == old(self).cap(),
                self.default_duration_ms == old(self).default_duration(),
                self.seq == (if req.id is None { old(self).next_id().wrapping_add(1) } else { old(self).next_id() }),
                pushed.len() <= self.max_visible ==> self.active@.len() == pushed.len(),
                pushed.len() > self.max_visible ==> self.active@.len() >= self.max_visible,
            decreases self.active@.len(),
        {
            let ghost before = self.shown();
            let ghost old_active = self.active@;
            self.active.remove(0);
            assert(self.active@ =~= old_active.subrange(1, old_active.len() as int));
            assert forall|k: int| 0 <= k < self.active@.len() implies #[trigger] self.shown()[k] == before[k + 1] by {
                assert(self.active@[k] == old_active[k + 1]);
            }
            assert(self.shown() =~= pushed.subrange(pushed.len() - self.active@.len(), pushed.len() as int));
        }
        proof {
            if pushed.len() <= self.max_visible {
                assert(pushed.subrange(0, pushed.len() as int) =~= pushed);
            }
        }
        id
    }

    /// [`Self::submit_at`] at the current clock reading.
    pub fn submit_internal(&mut self, req: NotificationRequest) -> (id: u64)
        requires
            old(self).wf(),
        ensures
            final(self).wf(),
            id == old(self).id_for(req@),
            final(self).next_id() == (if req.id is None { old(self).next_id().wrapping_add(1) } else { old(self).next_id() }),
            exists|now: u64| final(self).shown() == keep_newest(
                old(self).shown().filter(other_id(id)).push(old(self).entry_for(req@, id, now)),
                old(self).cap(),
            ),
            final(self).default_duration() == old(self).default_duration(),
            final(self).cap() == old(self).cap(),
    {
        let now = now_ms();
        self.submit_at(req, now)
    }

    /// Take the toast with this id down, if it is up.
    pub fn dismiss(&mut self, id: u64)
        requires
            old(self).wf(),
        ensures
            final(self).wf(),
            final(self).shown() == old(self).shown().filter(other_id(id)),
            final(self).default_duration() == old(self).default_duration(),
            final(self).cap() == old(self).cap(),
            final(self).next_id() == old(self).next_id(),
    {
        proof {
            lemma_filter_keeps_distinct(self.shown(), other_id(id));
            self.shown().lemma_filter_len(other_id(id));
        }
        self.remove_id(id);
    }

    /// Take down every toast expired at time `now` and return their ids,
    /// oldest first.
    pub fn sweep_expired_at(&mut self, now: u64) -> (gone: Vec<u64>)
        requires
            old(self).wf(),
        ensures
            final(self).wf(),
            gone@ == old(self).shown().filter(expired_at(now)).map_values(|a: ActiveView| a.id),
            final(self).shown() == old(self).shown().filter(live_at(now)),
            final(self).default_duration() == old(self).default_duration(),
            final(self).cap() == old(self).cap(),
            final(self).next_id() == old(self).next_id(),
    {
        let ghost before = self.shown();
        let mut kept: Vec<ActiveNotification> = Vec::new();
        let mut gone: Vec<u64> = Vec::new();
        let mut rest: Vec<ActiveNotification> = Vec::new();
        std::mem::swap(&mut rest, &mut self.active);
        let n = rest.len();
        let mut i: usize = 0;
        reveal(Seq::filter);
        assert(before.subrange(0, 0) =~= Seq::<ActiveView>::empty());
        assert(active_views(kept@) =~= Seq::<ActiveView>::empty());
        assert(gone@ =~= Seq::<ActiveView>::empty().map_values(|a: ActiveView| a.id));
        while i < n
            invariant
                n == rest@.len(),
                active_views(rest@) == before,
                i <= n,
                active_views(kept@) == before.subrange(0, i as int).filter(live_at(now)),
                gone@ == before.subrange(0, i as int).filter(expired_at(now)).map_values(|a: ActiveView| a.id),
            decreases n - i,
        {
            reveal(Seq::filter);
            assert(before.subrange(0, i + 1).drop_last() =~= before.subrange(0, i as int));
            assert(before.subrange(0, i + 1).last() == rest@[i as int]@);
            let born = rest[i].born_at_ms;
            let age: u64 = if now >= born { now - born } else { 0 };
            if age >= rest[i].slots_until_dismiss_ms as u64 {
                let ghost prev = gone@;
                gone.push(rest[i].id);
                assert(gone@ =~= before.subrange(0, i + 1).filter(expired_at(now)).map_values(|a: ActiveView| a.id));
            } else {
                let a = rest[i].clone();
                let ghost prev = kept@;
                kept.push(a);
                assert(active_views(kept@) =~= active_views(prev).push(a@));
            }
            i = i + 1;
        }
        assert(before.subrange(0, n as int) =~= before);
        proof {
            lemma_filter_keeps_distinct(before, live_at(now));
            before.lemma_filter_len(live_at(now));
        }
        self.active = kept;
        gone
    }

    /// [`Self::sweep_expired_at`] at the current clock reading.
    pub fn sweep_expired(&mut self) -> (gone: Vec<u64>)
        requires
            old(self).wf(),
        ensures
            final(self).wf(),
            exists|now: u64| gone@ == old(self).shown().filter(expired_at(now)).map_values(|a: ActiveView| a.id)
                && final(self).shown() == old(self).shown().filter(live_at(now)),
            final(self).default_duration() == old(self).default_duration(),
            final(self).cap() == old(self).cap(),
            final(self).next_id() == old(self).next_id(),
    {
        let now = now_ms();
        self.sweep_expired_at(now)
    }

    /// The active toasts ordered by submission time (ties oldest first).
    pub fn snapshot(&self) -> (r: Vec<ActiveNotification>)
        ensures
            active_views(r@) == sort_by(self.shown(), by_birth()),
    {
        let v = &self.active;
        let mut out: Vec<ActiveNotification> = Vec::new();
        let mut i: usize = 0;
        assert(active_views(v@.subrange(0, 0)) =~= Seq::<ActiveView>::empty());
        assert(active_views(out@) =~= Seq::<ActiveView>::empty());
        while i < v.len()
            invariant
                i <= v@.len(),
                active_views(out@) == sort_by(active_views(v@.subrange(0, i as int)), by_birth()),
            decreases v@.len() - i,
        {
            let x = v[i].clone();
            let ghost sorted = active_views(out@);
            let ghost pre = active_views(v@.subrange(0, i + 1));
            assert(pre.drop_last() =~= active_views(v@.subrange(0, i as int)));
            assert(pre.last() == x@);
            let mut j: usize = 0;
            while j < out.len() && out[j].born_at_ms <= x.born_at_ms
                invariant
                    sorted == active_views(out@),
                    j <= out@.len(),
                    forall|k: int| 0 <= k < j ==> by_birth()(#[trigger] sorted[k], x@),
                decreases out@.len() - j,
            {
                assert(sorted[j as int] == out@[j as int]@);
                j = j + 1;
            }
            proof {
                if j < out@.len() {
                    assert(sorted[j as int] == out@[j as int]@);
                }
                crate::seqs::lemma_insert_position(sorted, x@, by_birth(), j as int);
            }
            let ghost x_view = x@;
            if j < out.len() {
                out.insert(j, x);
                assert(active_views(out@) =~= sorted.insert(j as int, x_view));
            } else {
                out.push(x);
                assert(active_views(out@) =~= sorted.push(x_view));
            }
            i = i + 1;
        }
        assert(v@.subrange(0, i as int) =~= v@);
        out
    }
}

} // verus!
