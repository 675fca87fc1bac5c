//! Failure isolation: the registry of subsystem health that lets one
//! feature die while the rest keeps running.

use vstd::prelude::*;
use crate::seqs::{keys_distinct, lemma_sort_by_keeps, sort_by, sorted_by};
use crate::config::Config;
use crate::text::owned;
use crate::launcher::{byte_order, lemma_lex_order_antisym, lemma_lex_order_trans, lex_order};

verus! {

/// The health of one subsystem.
#[derive(Clone, Copy, Debug, PartialEq, Eq, Structural)]
pub enum Health {
    /// Running normally.
    Alive,
    /// Turned off in the configuration; not an error.
    Disabled,
    /// Panicked and stopped.
    Dead,
    /// Winding down.
    Stopping,
}

impl Health {
    /// The glyph used in the debug dump.
    pub fn glyph(self) -> (r: &'static str)
        ensures
            r@ == (match self {
                Health::Alive => "\u{25cf}"@,
                Health::Disabled => "\u{25cb}"@,
                Health::Dead => "\u{2717}"@,
                Health::Stopping => "~"@,
            }),
    {
        match self {
            Health::Alive => "\u{25cf}",
            Health::Disabled => "\u{25cb}",
            Health::Dead => "\u{2717}",
            Health::Stopping => "~",
        }
    }
}

/// One row of the registry.
#[derive(Debug)]
pub struct SubsystemEntry {
    pub name: String,
    pub health: Health,
    pub last_error: Option<String>,
    pub last_panic_thread: Option<String>,
}

/// The abstract value of a [`SubsystemEntry`].
pub struct EntryState {
    pub name: Seq<char>,
    pub health: Health,
    pub last_error: Option<Seq<char>>,
    pub last_panic_thread: Option<Seq<char>>,
}

/// The view of an optional string.
pub open spec fn opt_chars(o: Option<String>) -> Option<Seq<char>> {
    match o {
        Some(s) => Some(s@),
        None => None,
    }
}

impl View for SubsystemEntry {
    type V = EntryState;

    open spec fn view(&self) -> EntryState {
        EntryState {
            name: self.name@,
            health: self.health,
            last_error: opt_chars(self.last_error),
            last_panic_thread: opt_chars(self.last_panic_thread),
        }
    }
}

fn clone_opt(o: &Option<String>) -> (r: Option<String>)
    ensures
        opt_chars(r) == opt_chars(*o),
{
    match o {
        Some(s) => Some(s.clone()),
        None => None,
    }
}

impl Clone for SubsystemEntry {
    fn clone(&self) -> (r: Self)
        ensures
            r@ == self@,
    {
        SubsystemEntry {
            name: self.name.clone(),
            health: self.health,
            last_error: clone_opt(&self.last_error),
            last_panic_thread: clone_opt(&self.last_panic_thread),
        }
    }
}

impl SubsystemEntry {
    fn with_health(name: &str, health: Health, last_error: Option<String>, last_panic_thread: Option<String>) -> (r: Self)
        ensures
            r@ == (EntryState {
                name: name@,
                health,
                last_error: opt_chars(last_error),
                last_panic_thread: opt_chars(last_panic_thread),
            }),
    {
        SubsystemEntry { name: owned(name), health, last_error, last_panic_thread }
    }
}

/// The views of a sequence of rows.
pub open spec fn entry_states(s: Seq<SubsystemEntry>) -> Seq<EntryState> {
    s.map_values(|e: SubsystemEntry| e@)
}

/// No two rows share a name.
pub open spec fn names_distinct(s: Seq<EntryState>) -> bool {
    forall|i: int, j: int| 0 <= i < j < s.len() ==> s[i].name != s[j].name
}

/// The rows after recording `e`: it replaces the row with its name, or is
/// added at the end.
pub open spec fn upsert(s: Seq<EntryState>, e: EntryState) -> Seq<EntryState> {
    if exists|i: int| 0 <= i < s.len() && s[i].name == e.name {
        s.update(choose|i: int| 0 <= i < s.len() && s[i].name == e.name, e)
    } else {
        s.push(e)
    }
}

/// Recording a row leaves exactly one row with its name, that row is the
/// recorded one, the names stay distinct, every row with another name
/// stays as it was, and the number of rows grows only for a new name.
pub proof fn lemma_upsert_one_row(rows: Seq<EntryState>, e: EntryState)
    requires
        names_distinct(rows),
    ensures
        ({
            let after = upsert(rows, e);
            &&& names_distinct(after)
            &&& exists|i: int| 0 <= i < after.len() && after[i] == e
            &&& forall|i: int| 0 <= i < rows.len() && rows[i].name != e.name ==> after.contains(rows[i])
            &&& after.len() == if exists|i: int| 0 <= i < rows.len() && rows[i].name == e.name {
                rows.len()
            } else {
                rows.len() + 1
            }
        }),
{
    let after = upsert(rows, e);
    if exists|i: int| 0 <= i < rows.len() && rows[i].name == e.name {
        let k = choose|i: int| 0 <= i < rows.len() && rows[i].name == e.name;
        assert(after[k] == e);
        assert forall|a: int, b: int| 0 <= a < b < after.len() implies after[a].name != after[b].name by {
            assert(rows[a].name != rows[b].name);
        }
        assert forall|i: int| 0 <= i < rows.len() && rows[i].name != e.name implies after.contains(rows[i]) by {
            assert(after[i] == rows[i]);
        }
    } else {
        assert(after[rows.len() as int] == e);
        assert forall|a: int, b: int| 0 <= a < b < after.len() implies after[a].name != after[b].name by {
            if b < rows.len() {
                assert(rows[a].name != rows[b].name);
            }
        }
        assert forall|i: int| 0 <= i < rows.len() && rows[i].name != e.name implies after.contains(rows[i]) by {
            assert(after[i] == rows[i]);
        }
    }
}

/// The rows a registry holds after recording `calls` in turn, starting
/// empty (each of `register`, `register_disabled`, `mark_dead` and
/// `mark_alive` records one row).
pub open spec fn rows_after_calls(calls: Seq<EntryState>) -> Seq<EntryState>
    decreases calls.len(),
{
    if calls.len() == 0 {
        Seq::empty()
    } else {
        upsert(rows_after_calls(calls.drop_last()), calls.last())
    }
}

/// Some row of `rows` has name `n`.
pub open spec fn has_row_named(rows: Seq<EntryState>, n: Seq<char>) -> bool {
    exists|i: int| 0 <= i < rows.len() && #[trigger] rows[i].name == n
}

/// The row for name `n` was recorded by call `k` and by no later call.
pub open spec fn latest_call(calls: Seq<EntryState>, k: int, n: Seq<char>) -> bool {
    &&& 0 <= k < calls.len()
    &&& calls[k].name == n
    &&& forall|l: int| k < l < calls.len() ==> (#[trigger] calls[l]).name != n
}

/// After any sequence of recording calls from an empty registry, there is
/// one row per name that was recorded, no other row, and each row is the
/// one the latest call for its name recorded.
pub proof fn lemma_rows_after_calls(calls: Seq<EntryState>)
    ensures
        ({
            let rows = rows_after_calls(calls);
            &&& names_distinct(rows)
            &&& forall|n: Seq<char>| #[trigger] has_row_named(rows, n) <==> has_row_named(calls, n)
            &&& forall|i: int| #![trigger rows[i]] 0 <= i < rows.len() ==> exists|k: int| #[trigger] latest_call(calls, k, rows[i].name) && calls[k] == rows[i]
        }),
    decreases calls.len(),
{
    if calls.len() > 0 {
        let pre = calls.drop_last();
        let e = calls.last();
        let before = rows_after_calls(pre);
        lemma_rows_after_calls(pre);
        lemma_upsert_one_row(before, e);
        let rows = rows_after_calls(calls);
        assert(rows == upsert(before, e));
        let found = exists|i: int| 0 <= i < before.len() && before[i].name == e.name;
        let q = choose|i: int| 0 <= i < before.len() && before[i].name == e.name;
        // Each row is `e` or an unchanged row of `before` with another name.
        assert forall|i: int| 0 <= i < rows.len() implies (rows[i] == e || (i < before.len() && rows[i] == before[i]
            && before[i].name != e.name)) by {
            if found {
                if i != q {
                    assert(before[i].name != before[q].name || i == q);
                }
            }
        }
        assert forall|n: Seq<char>| #[trigger] has_row_named(rows, n) <==> has_row_named(calls, n) by {
            if has_row_named(rows, n) {
                let i = choose|i: int| 0 <= i < rows.len() && #[trigger] rows[i].name == n;
                if rows[i] == e {
                    assert(calls[calls.len() - 1].name == n);
                } else {
                    assert(before[i].name == n);
                    assert(has_row_named(before, n));
                    assert(has_row_named(pre, n));
                    let k = choose|k: int| 0 <= k < pre.len() && #[trigger] pre[k].name == n;
                    assert(calls[k].name == n);
                }
            }
            if has_row_named(calls, n) {
                let k = choose|k: int| 0 <= k < calls.len() && #[trigger] calls[k].name == n;
                if n == e.name {
                    let j = choose|i: int| 0 <= i < rows.len() && rows[i] == e;
                    assert(rows[j].name == n);
                } else {
                    assert(k < pre.len());
                    assert(pre[k].name == n);
                    assert(has_row_named(pre, n));
                    assert(has_row_named(before, n));
                    let i = choose|i: int| 0 <= i < before.len() && #[trigger] before[i].name == n;
                    assert(rows.contains(before[i]));
                    let j = choose|j: int| 0 <= j < rows.len() && rows[j] == before[i];
                    assert(rows[j].name == n);
                }
            }
        }
        assert forall|i: int| #![trigger rows[i]] 0 <= i < rows.len() implies exists|k: int| #[trigger] latest_call(calls, k, rows[i].name) && calls[k] == rows[i] by {
            if rows[i] == e {
                assert(latest_call(calls, calls.len() - 1, rows[i].name));
            } else {
                let k = choose|k: int| #[trigger] latest_call(pre, k, before[i].name) && pre[k] == before[i];
                assert forall|l: int| k < l < calls.len() implies (#[trigger] calls[l]).name != rows[i].name by {
                    if l < pre.len() {
                        assert(pre[l].name != before[i].name);
                    }
                }
                assert(latest_call(calls, k, rows[i].name));
            }
        }
    }
}

/// The snapshot after any sequence of recording calls from an empty
/// registry: one row per recorded name, each the latest call's row,
/// ordered by name.
pub proof fn lemma_snapshot_after_calls(calls: Seq<EntryState>)
    ensures
        ({
            let snap = sort_by(rows_after_calls(calls), by_entry_name());
            &&& names_distinct(snap)
            &&& sorted_by(snap, by_entry_name())
            &&& forall|n: Seq<char>| #[trigger] has_row_named(snap, n) <==> has_row_named(calls, n)
            &&& forall|i: int| #![trigger snap[i]] 0 <= i < snap.len() ==> exists|k: int| #[trigger] latest_call(calls, k, snap[i].name) && calls[k] == snap[i]
        }),
{
    let rows = rows_after_calls(calls);
    lemma_rows_after_calls(calls);
    lemma_snapshot_sorted_rows(rows);
    let snap = sort_by(rows, by_entry_name());
    assert forall|n: Seq<char>| #[trigger] has_row_named(snap, n) <==> has_row_named(calls, n) by {
        if has_row_named(snap, n) {
            let i = choose|i: int| 0 <= i < snap.len() && #[trigger] snap[i].name == n;
            assert(snap.contains(snap[i]));
            let j = choose|j: int| 0 <= j < rows.len() && rows[j] == snap[i];
            assert(rows[j].name == n);
            assert(has_row_named(rows, n));
        }
        if has_row_named(calls, n) {
            assert(has_row_named(rows, n));
            let j = choose|j: int| 0 <= j < rows.len() && #[trigger] rows[j].name == n;
            assert(rows.contains(rows[j]));
            assert(snap.contains(rows[j]));
            let i = choose|i: int| 0 <= i < snap.len() && snap[i] == rows[j];
            assert(snap[i].name == n);
        }
    }
    assert forall|i: int| #![trigger snap[i]] 0 <= i < snap.len() implies exists|k: int| #[trigger] latest_call(calls, k, snap[i].name) && calls[k] == snap[i] by {
        assert(snap.contains(snap[i]));
        let j = choose|j: int| 0 <= j < rows.len() && rows[j] == snap[i];
        assert(rows[j] == snap[i]);
    }
}

/// Rows ordered by name (byte order of the UTF-8 text).
pub open spec fn by_entry_name() -> spec_fn(EntryState, EntryState) -> bool {
    |a: EntryState, b: EntryState| lex_order(vstd::utf8::encode_utf8(a.name), vstd::utf8::encode_utf8(b.name)) <= 0
}

/// The name of a row.
pub open spec fn entry_name() -> spec_fn(EntryState) -> Seq<char> {
    |e: EntryState| e.name
}

/// The snapshot of a registry holds each of its rows exactly once, no two
/// with the same name, ordered by name.
pub proof fn lemma_snapshot_sorted_rows(rows: Seq<EntryState>)
    requires
        names_distinct(rows),
    ensures
        ({
            let r = sort_by(rows, by_entry_name());
            &&& r.len() == rows.len()
            &&& forall|e: EntryState| #[trigger] r.contains(e) <==> rows.contains(e)
            &&& names_distinct(r)
            &&& sorted_by(r, by_entry_name())
        }),
{
    let le = by_entry_name();
    assert forall|a: EntryState, b: EntryState| #[trigger] le(a, b) || le(b, a) by {
        lemma_lex_order_antisym(vstd::utf8::encode_utf8(a.name), vstd::utf8::encode_utf8(b.name));
    }
    assert forall|a: EntryState, b: EntryState, c: EntryState| #[trigger] le(a, b) && #[trigger] le(b, c) implies le(a, c) by {
        lemma_lex_order_trans(
            vstd::utf8::encode_utf8(a.name),
            vstd::utf8::encode_utf8(b.name),
            vstd::utf8::encode_utf8(c.name),
        );
    }
    assert(keys_distinct(rows, entry_name()));
    lemma_sort_by_keeps(rows, le, entry_name());
    let r = sort_by(rows, le);
    assert(keys_distinct(r, entry_name()));
    assert forall|i: int, j: int| 0 <= i < j < r.len() implies r[i].name != r[j].name by {
        assert(entry_name()(r[i]) != entry_name()(r[j]));
    }
}

/// The health registry: one row per subsystem name.
pub struct SubsystemHealth {
    entries: Vec<SubsystemEntry>,
}

impl SubsystemHealth {
    /// The rows, in the order their names were first recorded.
    pub closed spec fn rows(&self) -> Seq<EntryState> {
        entry_states(self.entries@)
    }

    /// Names are distinct.
    pub open spec fn wf(&self) -> bool {
        names_distinct(self.rows())
    }

    /// An empty registry.
    pub fn new() -> (r: Self)
        ensures
            r.wf(),
            r.rows() == Seq::<EntryState>::empty(),
    {
        let r = SubsystemHealth { entries: Vec::new() };
        assert(r.rows() =~= Seq::<EntryState>::empty());
        r
    }

    fn record(&mut self, e: SubsystemEntry)
        requires
            old(self).wf(),
        ensures
            final(self).wf(),
            final(self).rows() == upsert(old(self).rows(), e@),
    {
        let ghost before = self.rows();
        let mut i: usize = 0;
        while i < self.entries.len()
            invariant
                self.rows() == before,
                before == old(self).rows(),
                names_distinct(before),
                i <= self.entries@.len(),
                forall|k: int| 0 <= k < i ==> before[k].name != e@.name,
            decreases self.entries@.len() - i,
        {
            if self.entries[i].name == e.name {
                let ghost ev = e@;
                assert(before[i as int].name == ev.name);
                assert(exists|k: int| 0 <= k < before.len() && before[k].name == ev.name);
                let ghost chosen = choose|k: int| 0 <= k < before.len() && before[k].name == ev.name;
                assert(chosen == i) by {
                    if chosen < i {
                    } else if chosen > i {
                        assert(before[i as int].name != before[chosen].name);
                    }
                }
                self.entries.set(i, e);
                assert(self.rows() =~= before.update(i as int, ev));
                assert forall|a: int, b: int| 0 <= a < b < self.rows().len() implies self.rows()[a].name
                    != self.rows()[b].name by {
                    if a != i && b != i {
                        assert(before[a].name != before[b].name);
                    } else if a == i {
                        assert(before[a].name != before[b].name);
                    } else {
                        assert(before[a].name != before[b].name);
                    }
                }
                assert(self.rows() == upsert(before, ev));
                assert(before == old(self).rows());
                return;
            }
            i = i + 1;
        }
        let ghost ev = e@;
        self.entries.push(e);
        assert(self.rows() =~= before.push(ev));
    }

    /// Record a subsystem that booted: alive, no error.
    pub fn register(&mut self, name: &str)
        requires
            old(self).wf(),
        ensures
            final(self).wf(),
            final(self).rows() == upsert(
                old(self).rows(),
                EntryState { name: name@, health: Health::Alive, last_error: None, last_panic_thread: None },
            ),
    {
        self.record(SubsystemEntry::with_health(name, Health::Alive, None, None));
    }

    /// Record a subsystem the configuration turned off.
    pub fn register_disabled(&mut self, name: &str)
        requires
            old(self).wf(),
        ensures
            final(self).wf(),
            final(self).rows() == upsert(
                old(self).rows(),
                EntryState { name: name@, health: Health::Disabled, last_error: None, last_panic_thread: None },
            ),
    {
        self.record(SubsystemEntry::with_health(name, Health::Disabled, None, None));
    }

    /// Record a subsystem that panicked, with the reason and the thread.
    pub fn mark_dead(&mut self, name: &str, reason: String, panic_thread: Option<String>)
        requires
            old(self).wf(),
        ensures
            final(self).wf(),
            final(self).rows() == upsert(
                old(self).rows(),
                EntryState {
                    name: name@,
                    health: Health::Dead,
                    last_error: Some(reason@),
                    last_panic_thread: opt_chars(panic_thread),
                },
            ),
    {
        self.record(SubsystemEntry::with_health(name, Health::Dead, Some(reason), panic_thread));
    }

    /// Record a subsystem as alive again, clearing its error.
    pub fn mark_alive(&mut self, name: &str)
        requires
            old(self).wf(),
        ensures
            final(self).wf(),
            final(self).rows() == upsert(
                old(self).rows(),
                EntryState { name: name@, health: Health::Alive, last_error: None, last_panic_thread: None },
            ),
    {
        self.record(SubsystemEntry::with_health(name, Health::Alive, None, None));
    }

    /// Every row, ordered by name.
    pub fn snapshot(&self) -> (r: Vec<SubsystemEntry>)
        ensures
            entry_states(r@) == sort_by(self.rows(), by_entry_name()),
            self.wf() ==> {
                &&& r@.len() == self.rows().len()
                &&& forall|e: EntryState| #[trigger] entry_states(r@).contains(e) <==> self.rows().contains(e)
                &&& names_distinct(entry_states(r@))
                &&& sorted_by(entry_states(r@), by_entry_name())
            },
    {
        let v = &self.entries;
        let mut out: Vec<SubsystemEntry> = Vec::new();
        let mut i: usize = 0;
        assert(entry_states(v@.subrange(0, 0)) =~= Seq::<EntryState>::empty());
        assert(entry_states(out@) =~= Seq::<EntryState>::empty());
        while i < v.len()
            invariant
                i <= v@.len(),
                entry_states(out@) == sort_by(entry_states(v@.subrange(0, i as int)), by_entry_name()),
            decreases v@.len() - i,
        {
            let x = v[i].clone();
            let ghost sorted = entry_states(out@);
            let ghost pre = entry_states(v@.subrange(0, i + 1));
            assert(pre.drop_last() =~= entry_states(v@.subrange(0, i as int)));
            assert(pre.last() == x@);
            let mut j: usize = 0;
            while j < out.len() && byte_order(out[j].name.as_str().as_bytes(), x.name.as_str().as_bytes()) <= 0
                invariant
                    sorted == entry_states(out@),
                    j <= out@.len(),
                    forall|k: int| 0 <= k < j ==> by_entry_name()(#[trigger] sorted[k], x@),
                decreases out@.len() - j,
            {
                assert(sorted[j as int] == out@[j as int]@);
                j = j + 1;
            }
            proof {
                if j < out@.len() {
                    assert(sorted[j as int] == out@[j as int]@);
                }
                crate::seqs::lemma_insert_position(sorted, x@, by_entry_name(), j as int);
            }
            let ghost x_view = x@;
            if j < out.len() {
                out.insert(j, x);
                assert(entry_states(out@) =~= sorted.insert(j as int, x_view));
            } else {
                out.push(x);
                assert(entry_states(out@) =~= sorted.push(x_view));
            }
            i = i + 1;
        }
        assert(v@.subrange(0, i as int) =~= v@);
        proof {
            if self.wf() {
                lemma_snapshot_sorted_rows(self.rows());
            }
        }
        out
    }
}

impl Default for SubsystemHealth {
    fn default() -> (r: Self)
        ensures
            r.wf(),
            r.rows() == Seq::<EntryState>::empty(),
    {
        Self::new()
    }
}

/// The name of the worker thread that runs a subsystem.
pub fn subsystem_thread_name(name: &str) -> (r: String)
    ensures
        r@ == "jacquewm-"@ + name@,
{
    crate::text::concat("jacquewm-", name)
}

/// The text a panic reports: its message when the payload is a string,
/// otherwise `<unknown>`.
pub fn panic_payload_to_string(message: Option<&str>) -> (r: String)
    ensures
        r@ == (match message {
            Some(m) => m@,
            None => "<unknown>"@,
        }),
{
    match message {
        Some(m) => owned(m),
        None => owned("<unknown>"),
    }
}

/// Record a subsystem as alive.
pub fn mark_alive(name: &str, health: &mut SubsystemHealth)
    requires
        old(health).wf(),
    ensures
        final(health).wf(),
        final(health).rows() == upsert(
            old(health).rows(),
            EntryState { name: name@, health: Health::Alive, last_error: None, last_panic_thread: None },
        ),
{
    health.mark_alive(name);
}

/// The row recording a subsystem as booted, or as turned off.
pub open spec fn toggle_row(name: Seq<char>, enabled: bool) -> EntryState {
    EntryState {
        name,
        health: if enabled { Health::Alive } else { Health::Disabled },
        last_error: None,
        last_panic_thread: None,
    }
}

/// The rows after recording `calls` in turn on `rows`.
pub open spec fn upsert_all(rows: Seq<EntryState>, calls: Seq<EntryState>) -> Seq<EntryState>
    decreases calls.len(),
{
    if calls.len() == 0 {
        rows
    } else {
        upsert(upsert_all(rows, calls.drop_last()), calls.last())
    }
}

/// The rows the boot sequence records: settings and debug as booted, and
/// the notifications, tray and launcher as the configuration turns them on
/// or off.
pub open spec fn boot_rows(cfg: Config) -> Seq<EntryState> {
    seq![
        toggle_row("settings"@, true),
        toggle_row("debug"@, true),
        toggle_row("notifications"@, cfg.notifications.enabled),
        toggle_row("tray"@, cfg.tray.enabled),
        toggle_row("launcher"@, cfg.launcher.enabled),
    ]
}

/// Record a subsystem as booted when it is enabled, else as turned off.
pub fn register_toggle(health: &mut SubsystemHealth, name: &str, enabled: bool)
    requires
        old(health).wf(),
    ensures
        final(health).wf(),
        final(health).rows() == upsert(old(health).rows(), toggle_row(name@, enabled)),
{
    if enabled {
        health.register(name);
    } else {
        health.register_disabled(name);
    }
}

/// Register the subsystems the boot sequence brings up, following the
/// configuration's toggles.
pub fn register_subsystems(health: &mut SubsystemHealth, cfg: &Config)
    requires
        old(health).wf(),
    ensures
        final(health).wf(),
        final(health).rows() == upsert_all(old(health).rows(), boot_rows(*cfg)),
{
    let ghost start = health.rows();
    register_toggle(health, "settings", true);
    register_toggle(health, "debug", true);
    register_toggle(health, "notifications", cfg.notifications.enabled);
    register_toggle(health, "tray", cfg.tray.enabled);
    register_toggle(health, "launcher", cfg.launcher.enabled);
    proof {
        let c = boot_rows(*cfg);
        assert(c.drop_last().drop_last().drop_last().drop_last().drop_last() =~= Seq::<EntryState>::empty());
        assert(c.drop_last().drop_last().drop_last().drop_last() =~= seq![c[0]]);
        assert(c.drop_last().drop_last().drop_last() =~= seq![c[0], c[1]]);
        assert(c.drop_last().drop_last() =~= seq![c[0], c[1], c[2]]);
        assert(c.drop_last() =~= seq![c[0], c[1], c[2], c[3]]);
        reveal_with_fuel(upsert_all, 6);
    }
}

} // verus!
