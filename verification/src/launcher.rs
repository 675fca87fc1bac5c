//! Application launcher: an in-memory catalogue of installed
//! applications, a fuzzy scorer, and the engine that turns a query and
//! key presses into a ranked, clamped selection.

use vstd::prelude::*;
use std::cmp::Ordering;
use crate::seqs::{first_index, lemma_first_index, sort_by, sorts_after, insert_sorted};
use crate::text::{lower, trim, chars_of, trim_chars, to_ascii_lower, owned, chars_eq_ignore_case,
    eq_ignore_case, is_blank, lemma_trim_len};

verus! {

/// Where an entry was discovered.
#[derive(Clone, Copy, Debug, PartialEq, Eq, Hash, Structural)]
pub enum Source {
    /// A Start Menu link or executable.
    StartMenu,
    /// A user-pinned shortcut.
    Pinned,
    /// A manually added alias.
    Manual,
}

impl Source {
    /// The one-character label shown beside an entry.
    pub fn glyph(self) -> (r: &'static str)
        ensures
            r@ == (match self {
                Source::StartMenu => "\u{203a}"@,
                Source::Pinned => "\u{2605}"@,
                Source::Manual => "+"@,
            }),
    {
        match self {
            Source::StartMenu => "\u{203a}",
            Source::Pinned => "\u{2605}",
            Source::Manual => "+",
        }
    }
}

/// The abstract value of an [`AppEntry`].
pub struct EntryView {
    pub id: u64,
    pub name: Seq<char>,
    pub exe_basename: Seq<char>,
    pub path: Seq<char>,
    pub source: Source,
}

/// One indexed application.
pub struct AppEntry {
    /// Stable identifier derived from the canonical path; equal ids
    /// mean the same application.
    pub id: u64,
    /// Display name.
    pub name: String,
    /// Basename of the executable.
    pub exe_basename: String,
    /// Full path of the executable or shortcut.
    pub path: String,
    /// Where the entry was discovered.
    pub source: Source,
}

impl View for AppEntry {
    type V = EntryView;

    open spec fn view(&self) -> EntryView {
        EntryView {
            id: self.id,
            name: self.name@,
            exe_basename: self.exe_basename@,
            path: self.path@,
            source: self.source,
        }
    }
}

impl Clone for AppEntry {
    fn clone(&self) -> (r: Self)
        ensures
            r@ == self@,
    {
        AppEntry {
            id: self.id,
            name: self.name.clone(),
            exe_basename: self.exe_basename.clone(),
            path: self.path.clone(),
            source: self.source,
        }
    }
}

/// Offset basis of 64-bit FNV-1a.
pub const FNV_OFFSET: u64 = 0xcbf2_9ce4_8422_2325;

/// Prime of 64-bit FNV-1a.
pub const FNV_PRIME: u64 = 0x100_0000_01b3;

/// 64-bit FNV-1a over a byte sequence.
pub open spec fn fnv1a(bytes: Seq<u8>) -> u64
    decreases bytes.len(),
{
    if bytes.len() == 0 {
        FNV_OFFSET
    } else {
        (fnv1a(bytes.drop_last()) ^ (bytes.last() as u64)).wrapping_mul(FNV_PRIME)
    }
}

impl AppEntry {
    /// De-duplication fingerprint of a path: FNV-1a over its UTF-8 bytes.
    pub fn fingerprint(path: &str) -> (h: u64)
        ensures
            h == fnv1a(vstd::utf8::encode_utf8(path@)),
    {
        let bytes = path.as_bytes();
        let mut h: u64 = FNV_OFFSET;
        let mut i: usize = 0;
        assert(bytes@.subrange(0, 0) =~= Seq::<u8>::empty());
        while i < bytes.len()
            invariant
                bytes@ == vstd::utf8::encode_utf8(path@),
                i <= bytes@.len(),
                h == fnv1a(bytes@.subrange(0, i as int)),
            decreases bytes@.len() - i,
        {
            assert(bytes@.subrange(0, i + 1).drop_last() =~= bytes@.subrange(0, i as int));
            h = h ^ (bytes[i] as u64);
            h = h.wrapping_mul(FNV_PRIME);
            i = i + 1;
        }
        assert(bytes@.subrange(0, i as int) =~= bytes@);
        h
    }
}

/// The entries of `s` carry pairwise distinct ids.
pub open spec fn ids_unique(s: Seq<EntryView>) -> bool {
    forall|i: int, j: int| 0 <= i < s.len() && 0 <= j < s.len() && i != j ==> s[i].id != s[j].id
}

/// The entry views of a vector of entries.
pub open spec fn entry_views(s: Seq<AppEntry>) -> Seq<EntryView> {
    s.map_values(|e: AppEntry| e@)
}

/// The catalogue of applications, in insertion order, one entry per id.
pub struct AppIndex {
    entries: Vec<AppEntry>,
}

impl View for AppIndex {
    type V = Seq<EntryView>;

    closed spec fn view(&self) -> Seq<EntryView> {
        entry_views(self.entries@)
    }
}

impl AppIndex {
    /// The catalogue holds each id at most once.
    pub open spec fn wf(&self) -> bool {
        ids_unique(self@)
    }

    /// An empty catalogue.
    pub fn new() -> (r: Self)
        ensures
            r.wf(),
            r@ == Seq::<EntryView>::empty(),
    {
        let r = AppIndex { entries: Vec::new() };
        assert(r@ =~= Seq::<EntryView>::empty());
        r
    }

    /// Add an entry unless its id is already present; reports whether it
    /// was added.
    pub fn insert(&mut self, entry: AppEntry) -> (added: bool)
        requires
            old(self).wf(),
        ensures
            final(self).wf(),
            added == !(exists|i: int| 0 <= i < old(self)@.len() && old(self)@[i].id == entry.id),
            added ==> final(self)@ == old(self)@.push(entry@),
            !added ==> final(self)@ == old(self)@,
    {
        let mut i: usize = 0;
        while i < self.entries.len()
            invariant
                self@ == old(self)@,
                self.wf(),
                i <= self.entries@.len(),
                forall|k: int| 0 <= k < i ==> self.entries@[k].id != entry.id,
            decreases self.entries@.len() - i,
        {
            if self.entries[i].id == entry.id {
                assert(self@[i as int].id == entry.id);
                return false;
            }
            i = i + 1;
        }
        let ghost before = self@;
        assert forall|k: int| 0 <= k < before.len() implies before[k].id != entry.id by {
            assert(before[k] == self.entries@[k]@);
        }
        self.entries.push(entry);
        assert(self@ =~= before.push(entry@));
        true
    }

    /// Number of entries.
    pub fn len(&self) -> (n: usize)
        ensures
            n == self@.len(),
    {
        self.entries.len()
    }

    /// True when the catalogue holds no entry.
    pub fn is_empty(&self) -> (r: bool)
        ensures
            r == (self@.len() == 0),
    {
        self.entries.len() == 0
    }

    /// The entry with the given id, if any.
    pub fn get(&self, id: u64) -> (r: Option<&AppEntry>)
        requires
            self.wf(),
        ensures
            match r {
                Some(e) => exists|i: int| 0 <= i < self@.len() && self@[i] == e@ && e.id == id,
                None => forall|i: int| 0 <= i < self@.len() ==> self@[i].id != id,
            },
    {
        let mut i: usize = 0;
        while i < self.entries.len()
            invariant
                i <= self.entries@.len(),
                forall|k: int| 0 <= k < i ==> self@[k].id != id,
            decreases self.entries@.len() - i,
        {
            if self.entries[i].id == id {
                assert(self@[i as int] == self.entries@[i as int]@);
                return Some(&self.entries[i]);
            }
            i = i + 1;
        }
        None
    }

    /// Every entry, in insertion order.
    pub fn iter(&self) -> (r: &[AppEntry])
        ensures
            entry_views(r@) == self@,
    {
        self.entries.as_slice()
    }

    /// A copy of every entry, in insertion order.
    pub fn drain(&self) -> (r: Vec<AppEntry>)
        ensures
            entry_views(r@) == self@,
            self.wf() ==> ids_unique(entry_views(r@)),
    {
        let mut out: Vec<AppEntry> = Vec::new();
        let mut i: usize = 0;
        while i < self.entries.len()
            invariant
                i <= self.entries@.len(),
                out@.len() == i,
                entry_views(out@) == entry_views(self.entries@.subrange(0, i as int)),
            decreases self.entries@.len() - i,
        {
            let e = self.entries[i].clone();
            assert(e@ == self.entries@[i as int]@);
            let ghost prev = out@;
            out.push(e);
            assert forall|k: int| 0 <= k < i + 1 implies #[trigger] entry_views(out@)[k]
                == entry_views(self.entries@.subrange(0, i + 1))[k] by {
                if k < i {
                    assert(entry_views(prev)[k] == entry_views(self.entries@.subrange(0, i as int))[k]);
                }
            }
            i = i + 1;
            assert(entry_views(out@) =~= entry_views(self.entries@.subrange(0, i as int)));
        }
        assert(self.entries@.subrange(0, i as int) =~= self.entries@);
        out
    }
}

/// The abstract value of a [`ScoredEntry`].
pub struct ScoredView {
    pub entry: EntryView,
    pub score: i32,
    pub positions: Seq<usize>,
}

/// A scored match of the query against one entry.
pub struct ScoredEntry {
    /// The matched entry.
    pub entry: AppEntry,
    /// Higher is better.
    pub score: i32,
    /// Character positions of the matched text that matched the query.
    pub matched_positions: Vec<usize>,
}

impl View for ScoredEntry {
    type V = ScoredView;

    open spec fn view(&self) -> ScoredView {
        ScoredView { entry: self.entry@, score: self.score, positions: self.matched_positions@ }
    }
}

impl Clone for ScoredEntry {
    fn clone(&self) -> (r: Self)
        ensures
            r@ == self@,
    {
        let positions = self.matched_positions.clone();
        assert(positions@ =~= self.matched_positions@);
        ScoredEntry { entry: self.entry.clone(), score: self.score, matched_positions: positions }
    }
}

/// The views of a sequence of scored entries.
pub open spec fn scored_views(s: Seq<ScoredEntry>) -> Seq<ScoredView> {
    s.map_values(|e: ScoredEntry| e@)
}

// ---------------------------------------------------------------------
// Fuzzy scoring
// ---------------------------------------------------------------------

/// Where the left-to-right scan of the query through the target stands.
pub struct ScanState {
    /// Query characters matched so far.
    pub qi: int,
    /// Target characters consumed so far.
    pub ti: int,
    /// Points earned so far.
    pub score: int,
    /// Target position of the previous match.
    pub last: Option<int>,
    /// The previous step matched at target position 0.
    pub adjacent: bool,
    /// Target positions of the matches, in order.
    pub positions: Seq<usize>,
}

/// The scan before any character is read.
pub open spec fn scan_start() -> ScanState {
    ScanState { qi: 0, ti: 0, score: 0, last: None, adjacent: false, positions: Seq::empty() }
}

/// The saturating predecessor of a position.
pub open spec fn pred_sat(i: int) -> int {
    if i > 0 { i - 1 } else { 0 }
}

/// Points for a match of `q[s.qi]` at `t[s.ti]`: the first match earns 50,
/// and 200 more at position 0; a match right after the previous one earns
/// 30, and 25 more when the previous step matched at position 0; an exact
/// case match earns 10, a case-folded one 5.
pub open spec fn match_points(q: Seq<char>, t: Seq<char>, s: ScanState) -> int {
    let follows = s.last == Some(pred_sat(s.ti));
    (if s.last is None { (if s.ti == 0 { 200int } else { 0int }) + 50 } else { 0int })
        + (if follows { 30int } else { 0int })
        + (if t[s.ti] == q[s.qi] { 10int } else { 5int })
        + (if s.adjacent && follows { 25int } else { 0int })
}

/// One step of the scan: read `t[s.ti]`, matching `q[s.qi]` up to ASCII case.
pub open spec fn scan_step(q: Seq<char>, t: Seq<char>, s: ScanState) -> ScanState {
    if lower(q[s.qi]) == lower(t[s.ti]) {
        ScanState {
            qi: s.qi + 1,
            ti: s.ti + 1,
            score: s.score + match_points(q, t, s),
            last: Some(s.ti),
            adjacent: s.ti == 0,
            positions: s.positions.push(s.ti as usize),
        }
    } else {
        ScanState {
            qi: s.qi,
            ti: s.ti + 1,
            score: s.score,
            last: s.last,
            adjacent: false,
            positions: s.positions,
        }
    }
}

/// The scan run until the query or the target is exhausted.
pub open spec fn scan(q: Seq<char>, t: Seq<char>, s: ScanState) -> ScanState
    decreases t.len() - s.ti,
{
    if 0 <= s.qi < q.len() && 0 <= s.ti < t.len() {
        scan(q, t, scan_step(q, t, s))
    } else {
        s
    }
}

/// A successful fuzzy match.
pub struct FuzzyMatch {
    pub score: int,
    pub positions: Seq<usize>,
}

/// Score awarded to a target equal to the query up to ASCII case.
pub const EXACT_SCORE: i32 = 1_000_000;

/// The fuzzy match of `query` (trimmed) against `target`: none for a blank
/// query; the exact score, every position matched, when the two agree up to
/// ASCII case; otherwise the greedy scan, which must match every query
/// character.
pub open spec fn fuzzy_match(query: Seq<char>, target: Seq<char>) -> Option<FuzzyMatch> {
    let q = trim(query);
    if q.len() == 0 {
        None
    } else if eq_ignore_case(target, q) {
        Some(FuzzyMatch { score: EXACT_SCORE as int, positions: Seq::new(target.len(), |i: int| i as usize) })
    } else {
        let s = scan(q, target, scan_start());
        if s.qi < q.len() {
            None
        } else {
            Some(FuzzyMatch { score: s.score, positions: s.positions })
        }
    }
}

/// The entry a fuzzy score reports for a bare target string.
pub open spec fn placeholder_view(target: Seq<char>) -> EntryView {
    EntryView { id: 0, name: target, exe_basename: target, path: Seq::empty(), source: Source::StartMenu }
}

/// Queries longer than this many characters could overflow the score.
pub const QUERY_LIMIT: usize = 33_000_000;

fn placeholder(target: &str) -> (e: AppEntry)
    ensures
        e@ == placeholder_view(target@),
{
    AppEntry {
        id: 0,
        name: owned(target),
        exe_basename: owned(target),
        path: String::new(),
        source: Source::StartMenu,
    }
}

/// The exec image of a scan state.
pub open spec fn scan_of(qi: usize, ti: usize, score: i32, last: Option<usize>, adjacent: bool, positions: Seq<usize>) -> ScanState {
    ScanState {
        qi: qi as int,
        ti: ti as int,
        score: score as int,
        last: match last { Some(p) => Some(p as int), None => None },
        adjacent,
        positions,
    }
}

/// Fuzzy-match `query` against `target`.
pub fn fuzzy_score(query: &str, target: &str) -> (r: Option<ScoredEntry>)
    requires
        query@.len() <= QUERY_LIMIT,
    ensures
        match fuzzy_match(query@, target@) {
            None => r is None,
            Some(m) => (r matches Some(e) && e.score == m.score && e.matched_positions@ == m.positions
                && e.entry@ == placeholder_view(target@)),
        },
{
    let qv = chars_of(query);
    let q = trim_chars(qv.as_slice());
    if q.len() == 0 {
        return None;
    }
    let t = chars_of(target);
    if chars_eq_ignore_case(t.as_slice(), q.as_slice()) {
        let n = t.len();
        let mut all: Vec<usize> = Vec::new();
        let mut i: usize = 0;
        while i < n
            invariant
                i <= n,
                all@ == Seq::new(i as nat, |k: int| k as usize),
            decreases n - i,
        {
            all.push(i);
            i = i + 1;
            assert(all@ =~= Seq::new(i as nat, |k: int| k as usize));
        }
        return Some(ScoredEntry { entry: placeholder(target), score: EXACT_SCORE, matched_positions: all });
    }
    let ghost qs = q@;
    let ghost ts = t@;
    proof {
        lemma_trim_len(query@);
    }
    let mut positions: Vec<usize> = Vec::new();
    let mut score: i32 = 0;
    let mut last_pos: Option<usize> = None;
    let mut qi: usize = 0;
    let mut ti: usize = 0;
    let mut adjacent = false;
    while qi < q.len() && ti < t.len()
        invariant
            q@ == qs,
            t@ == ts,
            qs.len() <= QUERY_LIMIT,
            qi <= qs.len(),
            ti <= ts.len(),
            qi <= ti,
            0 <= score,
            qi == 0 ==> score == 0 && last_pos is None,
            qi > 0 ==> score <= 65 * qi + 195 && last_pos is Some,
            last_pos matches Some(p) ==> p < ti,
            scan(qs, ts, scan_of(qi, ti, score, last_pos, adjacent, positions@)) == scan(qs, ts, scan_start()),
        decreases ts.len() - ti,
    {
        let ghost cur = scan_of(qi, ti, score, last_pos, adjacent, positions@);
        let qc = q[qi];
        let tc = t[ti];
        if to_ascii_lower(qc) == to_ascii_lower(tc) {
            let prev: usize = if ti > 0 { ti - 1 } else { 0 };
            let follows = match last_pos {
                Some(p) => p == prev,
                None => false,
            };
            let mut pts: i32 = 0;
            if last_pos.is_none() {
                if ti == 0 {
                    pts = pts + 200;
                }
                pts = pts + 50;
            }
            if follows {
                pts = pts + 30;
            }
            if tc == qc {
                pts = pts + 10;
            } else {
                pts = pts + 5;
            }
            if adjacent && follows {
                pts = pts + 25;
            }
            assert(pts == match_points(qs, ts, cur));
            assert(qi > 0 ==> pts <= 65);
            score = score + pts;
            positions.push(ti);
            last_pos = Some(ti);
            adjacent = ti == 0;
            qi = qi + 1;
            assert(scan_of(qi, (ti + 1) as usize, score, last_pos, adjacent, positions@) == scan_step(qs, ts, cur));
        } else {
            adjacent = false;
            assert(scan_of(qi, (ti + 1) as usize, score, last_pos, adjacent, positions@) == scan_step(qs, ts, cur));
        }
        ti = ti + 1;
    }
    if qi < q.len() {
        return None;
    }
    Some(ScoredEntry { entry: placeholder(target), score, matched_positions: positions })
}

/// `idx` places the characters of `q`, in order, on characters of `t`
/// equal up to ASCII case.
pub open spec fn embeds(q: Seq<char>, t: Seq<char>, idx: Seq<int>) -> bool {
    &&& idx.len() == q.len()
    &&& forall|k: int| 0 <= k < idx.len() ==> 0 <= #[trigger] idx[k] < t.len() && lower(t[idx[k]]) == lower(q[k])
    &&& forall|a: int, b: int| 0 <= a < b < idx.len() ==> idx[a] < idx[b]
}

/// `q` is a subsequence of `t` up to ASCII case.
pub open spec fn ci_subsequence(q: Seq<char>, t: Seq<char>) -> bool {
    exists|idx: Seq<int>| embeds(q, t, idx)
}

/// The scan so far has matched `q[..qi]` at increasing positions below `ti`.
pub open spec fn scan_ok(q: Seq<char>, t: Seq<char>, s: ScanState) -> bool {
    &&& 0 <= s.qi <= q.len()
    &&& s.qi <= s.ti <= t.len()
    &&& t.len() <= usize::MAX
    &&& s.positions.len() == s.qi
    &&& forall|k: int| 0 <= k < s.qi ==> (#[trigger] s.positions[k]) < s.ti && lower(t[s.positions[k] as int]) == lower(q[k])
    &&& forall|a: int, b: int| 0 <= a < b < s.qi ==> s.positions[a] < s.positions[b]
}

proof fn lemma_scan_sound(q: Seq<char>, t: Seq<char>, s: ScanState)
    requires
        scan_ok(q, t, s),
    ensures
        scan_ok(q, t, scan(q, t, s)),
        scan(q, t, s).qi == q.len() || scan(q, t, s).ti == t.len(),
    decreases t.len() - s.ti,
{
    if 0 <= s.qi < q.len() && 0 <= s.ti < t.len() {
        let n = scan_step(q, t, s);
        if lower(q[s.qi]) == lower(t[s.ti]) {
            assert forall|k: int| 0 <= k < n.qi implies (#[trigger] n.positions[k]) < n.ti && lower(t[n.positions[k] as int]) == lower(q[k]) by {
                if k < s.qi {
                    assert(n.positions[k] == s.positions[k]);
                }
            }
            assert forall|a: int, b: int| 0 <= a < b < n.qi implies n.positions[a] < n.positions[b] by {
                if b < s.qi {
                    assert(n.positions[a] == s.positions[a]);
                    assert(n.positions[b] == s.positions[b]);
                } else {
                    assert(n.positions[a] == s.positions[a]);
                }
            }
        }
        lemma_scan_sound(q, t, n);
    }
}

/// The rest of the query, `q[qi..]`, embeds in `t` at positions from `ti` on.
pub open spec fn rest_embeds(q: Seq<char>, t: Seq<char>, qi: int, ti: int) -> bool {
    exists|idx: Seq<int>| embeds(q.subrange(qi, q.len() as int), t, idx) && forall|k: int| 0 <= k < idx.len() ==> ti <= #[trigger] idx[k]
}

proof fn lemma_scan_complete(q: Seq<char>, t: Seq<char>, s: ScanState)
    requires
        scan_ok(q, t, s),
        rest_embeds(q, t, s.qi, s.ti),
    ensures
        scan(q, t, s).qi == q.len(),
    decreases t.len() - s.ti,
{
    if s.qi < q.len() {
        let idx = choose|idx: Seq<int>| embeds(q.subrange(s.qi, q.len() as int), t, idx) && forall|k: int| 0 <= k < idx.len() ==> s.ti <= #[trigger] idx[k];
        let rest = q.subrange(s.qi, q.len() as int);
        assert(rest[0] == q[s.qi]);
        assert(s.ti <= idx[0] < t.len());
        let n = scan_step(q, t, s);
        if lower(q[s.qi]) == lower(t[s.ti]) {
            let tail = idx.subrange(1, idx.len() as int);
            let rest2 = q.subrange(s.qi + 1, q.len() as int);
            assert forall|k: int| 0 <= k < tail.len() implies 0 <= #[trigger] tail[k] < t.len() && lower(t[tail[k]]) == lower(rest2[k]) by {
                assert(tail[k] == idx[k + 1]);
                assert(rest2[k] == rest[k + 1]);
            }
            assert forall|a: int, b: int| 0 <= a < b < tail.len() implies tail[a] < tail[b] by {
                assert(tail[a] == idx[a + 1]);
                assert(tail[b] == idx[b + 1]);
            }
            assert forall|k: int| 0 <= k < tail.len() implies n.ti <= #[trigger] tail[k] by {
                assert(tail[k] == idx[k + 1]);
                assert(idx[0] < idx[k + 1]);
            }
            assert(embeds(rest2, t, tail));
            lemma_scan_sound(q, t, s);
            assert(scan_ok(q, t, n)) by {
                assert forall|k: int| 0 <= k < n.qi implies (#[trigger] n.positions[k]) < n.ti && lower(t[n.positions[k] as int]) == lower(q[k]) by {
                    if k < s.qi {
                        assert(n.positions[k] == s.positions[k]);
                    }
                }
                assert forall|a: int, b: int| 0 <= a < b < n.qi implies n.positions[a] < n.positions[b] by {
                    if b < s.qi {
                        assert(n.positions[a] == s.positions[a]);
                        assert(n.positions[b] == s.positions[b]);
                    } else {
                        assert(n.positions[a] == s.positions[a]);
                    }
                }
            }
            lemma_scan_complete(q, t, n);
        } else {
            assert(idx[0] != s.ti);
            assert forall|k: int| 0 <= k < idx.len() implies n.ti <= #[trigger] idx[k] by {
                if k > 0 {
                    assert(idx[0] < idx[k]);
                }
            }
            lemma_scan_complete(q, t, n);
        }
    }
}

/// The fuzzy scorer matches exactly when the trimmed query is not blank
/// and its characters occur in the target in order, up to ASCII case.
pub proof fn lemma_fuzzy_match_iff_subsequence(query: Seq<char>, target: Seq<char>)
    requires
        target.len() <= usize::MAX,
    ensures
        fuzzy_match(query, target) is Some <==> trim(query).len() > 0 && ci_subsequence(trim(query), target),
{
    let q = trim(query);
    let t = target;
    let s0 = scan_start();
    assert(scan_ok(q, t, s0));
    if q.len() > 0 {
        if eq_ignore_case(t, q) {
            let idx = Seq::new(q.len(), |i: int| i);
            assert(crate::text::lower_seq(t).len() == t.len());
            assert(crate::text::lower_seq(q).len() == q.len());
            assert forall|k: int| 0 <= k < idx.len() implies 0 <= #[trigger] idx[k] < t.len() && lower(t[idx[k]]) == lower(q[k]) by {
                assert(crate::text::lower_seq(t)[k] == crate::text::lower_seq(q)[k]);
                assert(crate::text::lower_seq(t)[k] == lower(t[k]));
                assert(crate::text::lower_seq(q)[k] == lower(q[k]));
            }
            assert(embeds(q, t, idx));
        } else {
            lemma_scan_sound(q, t, s0);
            let fin = scan(q, t, s0);
            if ci_subsequence(q, t) {
                let idx = choose|idx: Seq<int>| embeds(q, t, idx);
                assert(q.subrange(0, q.len() as int) =~= q);
                assert forall|k: int| 0 <= k < idx.len() implies 0 <= #[trigger] idx[k] by {}
                assert(rest_embeds(q, t, 0, 0));
                lemma_scan_complete(q, t, s0);
            }
            if fin.qi == q.len() {
                let idx = Seq::new(q.len(), |i: int| fin.positions[i] as int);
                assert forall|k: int| 0 <= k < idx.len() implies 0 <= #[trigger] idx[k] < t.len() && lower(t[idx[k]]) == lower(q[k]) by {
                    assert(fin.positions[k] < fin.ti);
                }
                assert(embeds(q, t, idx));
            }
        }
    }
}

/// The positions a fuzzy match reports place the trimmed query's
/// characters, one each and in order, at strictly increasing positions of
/// the target that hold the same character up to ASCII case.
pub proof fn lemma_fuzzy_positions(query: Seq<char>, target: Seq<char>)
    requires
        target.len() <= usize::MAX,
    ensures
        fuzzy_match(query, target) matches Some(m) ==> embeds(
            trim(query),
            target,
            Seq::new(m.positions.len(), |i: int| m.positions[i] as int),
        ),
{
    let q = trim(query);
    let t = target;
    if q.len() > 0 {
        if eq_ignore_case(t, q) {
            let m = fuzzy_match(query, target)->Some_0;
            let idx = Seq::new(m.positions.len(), |i: int| m.positions[i] as int);
            assert(crate::text::lower_seq(t).len() == t.len());
            assert(crate::text::lower_seq(q).len() == q.len());
            assert(idx.len() == q.len());
            assert forall|k: int| 0 <= k < idx.len() implies 0 <= #[trigger] idx[k] < t.len() && lower(t[idx[k]]) == lower(q[k]) by {
                assert(idx[k] == k);
                assert(crate::text::lower_seq(t)[k] == crate::text::lower_seq(q)[k]);
                assert(crate::text::lower_seq(t)[k] == lower(t[k]));
                assert(crate::text::lower_seq(q)[k] == lower(q[k]));
            }
        } else {
            let s0 = scan_start();
            assert(scan_ok(q, t, s0));
            lemma_scan_sound(q, t, s0);
            let fin = scan(q, t, s0);
            if fin.qi == q.len() {
                let idx = Seq::new(fin.positions.len(), |i: int| fin.positions[i] as int);
                assert forall|k: int| 0 <= k < idx.len() implies 0 <= #[trigger] idx[k] < t.len() && lower(t[idx[k]]) == lower(q[k]) by {
                    assert(fin.positions[k] < fin.ti);
                }
                assert forall|a: int, b: int| 0 <= a < b < idx.len() implies idx[a] < idx[b] by {
                    assert(fin.positions[a] < fin.positions[b]);
                }
            }
        }
    }
}

// ---------------------------------------------------------------------
// Ranking
// ---------------------------------------------------------------------

/// Lexicographic order of byte strings: `-1`, `0` or `1`.
pub open spec fn lex_order(a: Seq<u8>, b: Seq<u8>) -> int
    decreases a.len(),
{
    if a.len() == 0 {
        if b.len() == 0 { 0 } else { -1 }
    } else if b.len() == 0 {
        1
    } else if a[0] < b[0] {
        -1
    } else if a[0] > b[0] {
        1
    } else {
        lex_order(a.drop_first(), b.drop_first())
    }
}

/// Swapping the arguments of [`lex_order`] negates it.
pub proof fn lemma_lex_order_antisym(a: Seq<u8>, b: Seq<u8>)
    ensures
        lex_order(a, b) == -lex_order(b, a),
    decreases a.len(),
{
    if a.len() > 0 && b.len() > 0 && a[0] == b[0] {
        lemma_lex_order_antisym(a.drop_first(), b.drop_first());
    }
}

/// [`lex_order`] is transitive as an "at most" relation.
pub proof fn lemma_lex_order_trans(a: Seq<u8>, b: Seq<u8>, c: Seq<u8>)
    requires
        lex_order(a, b) <= 0,
        lex_order(b, c) <= 0,
    ensures
        lex_order(a, c) <= 0,
    decreases a.len(),
{
    if a.len() > 0 && b.len() > 0 && c.len() > 0 && a[0] == b[0] && b[0] == c[0] {
        lemma_lex_order_trans(a.drop_first(), b.drop_first(), c.drop_first());
    }
}

/// The UTF-8 bytes of an entry's display name, which `String`'s order compares.
pub open spec fn name_bytes(e: EntryView) -> Seq<u8> {
    vstd::utf8::encode_utf8(e.name)
}

/// Entries ordered by display name.
pub open spec fn name_le(a: EntryView, b: EntryView) -> bool {
    lex_order(name_bytes(a), name_bytes(b)) <= 0
}

/// `name_le` as a relation value.
pub open spec fn by_name() -> spec_fn(EntryView, EntryView) -> bool {
    |a: EntryView, b: EntryView| name_le(a, b)
}

/// Result order: higher score first, then shorter name (in bytes), then
/// name order.
pub open spec fn rank_order(a: ScoredView, b: ScoredView) -> int {
    if a.score != b.score {
        if a.score > b.score { -1 } else { 1 }
    } else if name_bytes(a.entry).len() != name_bytes(b.entry).len() {
        if name_bytes(a.entry).len() < name_bytes(b.entry).len() { -1 } else { 1 }
    } else {
        lex_order(name_bytes(a.entry), name_bytes(b.entry))
    }
}

/// `a` does not rank after `b`.
pub open spec fn rank_le(a: ScoredView, b: ScoredView) -> bool {
    rank_order(a, b) <= 0
}

/// `rank_le` as a relation value.
pub open spec fn by_rank() -> spec_fn(ScoredView, ScoredView) -> bool {
    |a: ScoredView, b: ScoredView| rank_le(a, b)
}

/// Lexicographic comparison of two byte strings.
pub fn byte_order(a: &[u8], b: &[u8]) -> (r: i8)
    ensures
        r == lex_order(a@, b@),
        -1 <= r <= 1,
{
    let mut i: usize = 0;
    assert(a@.skip(0) =~= a@);
    assert(b@.skip(0) =~= b@);
    while i < a.len() && i < b.len() && a[i] == b[i]
        invariant
            i <= a@.len(),
            i <= b@.len(),
            lex_order(a@, b@) == lex_order(a@.skip(i as int), b@.skip(i as int)),
        decreases a@.len() - i,
    {
        assert(a@.skip(i as int).drop_first() =~= a@.skip(i + 1));
        assert(b@.skip(i as int).drop_first() =~= b@.skip(i + 1));
        i = i + 1;
    }
    if i < a.len() && i < b.len() {
        assert(a@.skip(i as int)[0] == a@[i as int]);
        assert(b@.skip(i as int)[0] == b@[i as int]);
        if a[i] < b[i] { -1 } else { 1 }
    } else if i == a.len() && i == b.len() {
        0
    } else if i == a.len() {
        -1
    } else {
        1
    }
}

fn name_order(a: &AppEntry, b: &AppEntry) -> (r: i8)
    ensures
        r == lex_order(name_bytes(a@), name_bytes(b@)),
        -1 <= r <= 1,
{
    byte_order(a.name.as_str().as_bytes(), b.name.as_str().as_bytes())
}

fn rank(a: &ScoredEntry, b: &ScoredEntry) -> (r: i8)
    ensures
        r == rank_order(a@, b@),
        -1 <= r <= 1,
{
    if a.score != b.score {
        if a.score > b.score { -1 } else { 1 }
    } else {
        let la = a.entry.name.as_str().as_bytes().len();
        let lb = b.entry.name.as_str().as_bytes().len();
        if la != lb {
            if la < lb { -1 } else { 1 }
        } else {
            name_order(&a.entry, &b.entry)
        }
    }
}

/// The number that stands for an `Ordering`.
pub open spec fn sign_of(o: Ordering) -> int {
    match o {
        Ordering::Less => -1,
        Ordering::Equal => 0,
        Ordering::Greater => 1,
    }
}

impl ScoredEntry {
    /// Result order: higher score first; ties by shorter name, then by name.
    pub fn cmp_desc(a: &ScoredEntry, b: &ScoredEntry) -> (r: Ordering)
        ensures
            sign_of(r) == rank_order(a@, b@),
    {
        let k = rank(a, b);
        if k < 0 {
            Ordering::Less
        } else if k == 0 {
            Ordering::Equal
        } else {
            Ordering::Greater
        }
    }
}

/// Stable sort of entries by display name.
fn sort_entries_by_name(v: &Vec<AppEntry>) -> (r: Vec<AppEntry>)
    ensures
        entry_views(r@) == sort_by(entry_views(v@), by_name()),
{
    let mut out: Vec<AppEntry> = Vec::new();
    let mut i: usize = 0;
    assert(entry_views(v@.subrange(0, 0)) =~= Seq::<EntryView>::empty());
    assert(entry_views(out@) =~= Seq::<EntryView>::empty());
    while i < v.len()
        invariant
            i <= v@.len(),
            entry_views(out@) == sort_by(entry_views(v@.subrange(0, i as int)), by_name()),
        decreases v@.len() - i,
    {
        let x = v[i].clone();
        let ghost sorted = entry_views(out@);
        let ghost pre = entry_views(v@.subrange(0, i + 1));
        assert(pre.drop_last() =~= entry_views(v@.subrange(0, i as int)));
        assert(pre.last() == x@);
        let mut j: usize = 0;
        while j < out.len() && name_order(&out[j], &x) <= 0
            invariant
                sorted == entry_views(out@),
                j <= out@.len(),
                forall|k: int| 0 <= k < j ==> by_name()(#[trigger] sorted[k], x@),
            decreases out@.len() - j,
        {
            assert(sorted[j as int] == out@[j as int]@);
            j = j + 1;
        }
        proof {
            if j < out@.len() {
                assert(sorted[j as int] == out@[j as int]@);
            }
            crate::seqs::lemma_insert_position(sorted, x@, by_name(), j as int);
        }
        let ghost x_view = x@;
        if j < out.len() {
            out.insert(j, x);
            assert(entry_views(out@) =~= sorted.insert(j as int, x_view));
        } else {
            out.push(x);
            assert(entry_views(out@) =~= sorted.push(x_view));
        }
        i = i + 1;
    }
    assert(v@.subrange(0, i as int) =~= v@);
    out
}

/// Stable sort of scored entries by rank.
fn sort_by_rank(v: &Vec<ScoredEntry>) -> (r: Vec<ScoredEntry>)
    ensures
        scored_views(r@) == sort_by(scored_views(v@), by_rank()),
{
    let mut out: Vec<ScoredEntry> = Vec::new();
    let mut i: usize = 0;
    assert(scored_views(v@.subrange(0, 0)) =~= Seq::<ScoredView>::empty());
    assert(scored_views(out@) =~= Seq::<ScoredView>::empty());
    while i < v.len()
        invariant
            i <= v@.len(),
            scored_views(out@) == sort_by(scored_views(v@.subrange(0, i as int)), by_rank()),
        decreases v@.len() - i,
    {
        let x = v[i].clone();
        let ghost sorted = scored_views(out@);
        let ghost pre = scored_views(v@.subrange(0, i + 1));
        assert(pre.drop_last() =~= scored_views(v@.subrange(0, i as int)));
        assert(pre.last() == x@);
        let mut j: usize = 0;
        while j < out.len() && rank(&out[j], &x) <= 0
            invariant
                sorted == scored_views(out@),
                j <= out@.len(),
                forall|k: int| 0 <= k < j ==> by_rank()(#[trigger] sorted[k], x@),
            decreases out@.len() - j,
        {
            assert(sorted[j as int] == out@[j as int]@);
            j = j + 1;
        }
        proof {
            if j < out@.len() {
                assert(sorted[j as int] == out@[j as int]@);
            }
            crate::seqs::lemma_insert_position(sorted, x@, by_rank(), j as int);
        }
        let ghost x_view = x@;
        if j < out.len() {
            out.insert(j, x);
            assert(scored_views(out@) =~= sorted.insert(j as int, x_view));
        } else {
            out.push(x);
            assert(scored_views(out@) =~= sorted.push(x_view));
        }
        i = i + 1;
    }
    assert(v@.subrange(0, i as int) =~= v@);
    out
}

// ---------------------------------------------------------------------
// The engine
// ---------------------------------------------------------------------

/// The better of the query's matches against an entry's display name and
/// its basename; the name wins a tie.
pub open spec fn best_match(query: Seq<char>, e: EntryView) -> Option<FuzzyMatch> {
    match (fuzzy_match(query, e.name), fuzzy_match(query, e.exe_basename)) {
        (Some(a), Some(b)) => if a.score >= b.score { Some(a) } else { Some(b) },
        (Some(a), None) => Some(a),
        (None, Some(b)) => Some(b),
        (None, None) => None,
    }
}

/// The entry matches the query and `score` is its best score.
pub open spec fn scored_as(query: Seq<char>, e: EntryView, score: i32) -> bool {
    best_match(query, e) matches Some(m) && score == m.score as i32
}

/// An entry matches a query when the query fuzzy-matches its display name
/// or its exe basename, and the match kept is one of those two with the
/// higher score (the name's on a tie).
pub proof fn lemma_best_match_either(query: Seq<char>, e: EntryView)
    ensures
        best_match(query, e) is Some <==> (fuzzy_match(query, e.name) is Some || fuzzy_match(query, e.exe_basename) is Some),
        best_match(query, e) matches Some(m) ==> {
            &&& (m == fuzzy_match(query, e.name)->Some_0 && fuzzy_match(query, e.name) is Some)
                || (m == fuzzy_match(query, e.exe_basename)->Some_0 && fuzzy_match(query, e.exe_basename) is Some)
            &&& (fuzzy_match(query, e.name) matches Some(a) ==> m.score >= a.score)
            &&& (fuzzy_match(query, e.exe_basename) matches Some(b) ==> m.score >= b.score)
        },
{
}

/// The scored list holds exactly the matching entries of the catalogue,
/// each with its best score, and no more rows than entries.
pub proof fn lemma_scored_all_matches(query: Seq<char>, entries: Seq<EntryView>)
    ensures
        scored_all(query, entries).len() <= entries.len(),
        forall|k: int| #![trigger scored_all(query, entries)[k]] 0 <= k < scored_all(query, entries).len() ==> exists|i: int|
            0 <= i < entries.len() && entries[i] == scored_all(query, entries)[k].entry
            && #[trigger] scored_as(query, entries[i], scored_all(query, entries)[k].score),
        forall|i: int| 0 <= i < entries.len() && #[trigger] best_match(query, entries[i]) is Some ==> exists|k: int|
            0 <= k < scored_all(query, entries).len() && #[trigger] scored_all(query, entries)[k].entry == entries[i],
    decreases entries.len(),
{
    if entries.len() > 0 {
        let pre = entries.drop_last();
        let x = entries.last();
        lemma_scored_all_matches(query, pre);
        let rest = scored_all(query, pre);
        let all = scored_all(query, entries);
        assert forall|k: int| #![trigger all[k]] 0 <= k < all.len() implies exists|i: int|
            0 <= i < entries.len() && entries[i] == all[k].entry
            && #[trigger] scored_as(query, entries[i], all[k].score) by {
            if k < rest.len() {
                assert(all[k] == rest[k]);
                let i = choose|i: int| 0 <= i < pre.len() && pre[i] == rest[k].entry
                    && #[trigger] scored_as(query, pre[i], rest[k].score);
                assert(entries[i] == pre[i]);
                assert(scored_as(query, entries[i], all[k].score));
            } else {
                let last = entries.len() - 1;
                assert(entries[last] == x);
                assert(best_match(query, x) is Some);
                assert(all[k].entry == x);
                assert(scored_as(query, entries[last], all[k].score));
            }
        }
        assert forall|i: int| 0 <= i < entries.len() && #[trigger] best_match(query, entries[i]) is Some implies exists|k: int|
            0 <= k < all.len() && #[trigger] all[k].entry == entries[i] by {
            if i < pre.len() {
                assert(entries[i] == pre[i]);
                assert(best_match(query, pre[i]) is Some);
                let k = choose|k: int| 0 <= k < rest.len() && #[trigger] rest[k].entry == pre[i];
                assert(all[k] == rest[k]);
            } else {
                assert(all[rest.len() as int].entry == x);
            }
        }
    }
}

/// With a non-blank query and no more entries than the limit, the results
/// hold exactly the entries whose display name or exe basename the query
/// fuzzy-matches, each with its best score.
#[verifier::rlimit(40)]
pub proof fn lemma_query_results_cover(query: Seq<char>, entries: Seq<EntryView>, limit: int)
    requires
        trim(query).len() > 0,
        entries.len() <= limit,
    ensures
        forall|i: int| 0 <= i < entries.len() ==> ((fuzzy_match(query, entries[i].name) is Some
            || fuzzy_match(query, entries[i].exe_basename) is Some) <==> exists|k: int|
            0 <= k < query_results(query, entries, limit).len()
            && #[trigger] query_results(query, entries, limit)[k].entry == entries[i]),
        forall|k: int| 0 <= k < query_results(query, entries, limit).len() ==> exists|i: int|
            0 <= i < entries.len() && entries[i] == #[trigger] query_results(query, entries, limit)[k].entry
            && scored_as(query, entries[i], query_results(query, entries, limit)[k].score),
{
    let all = scored_all(query, entries);
    lemma_scored_all_matches(query, entries);
    let sorted = sort_by(all, by_rank());
    assert(sorted.len() == all.len() && forall|v: ScoredView| #[trigger] sorted.contains(v) <==> all.contains(v)) by {
        crate::seqs::lemma_sort_by_keeps(all, by_rank(), |v: ScoredView| v.score);
    }
    let rows = query_results(query, entries, limit);
    assert(rows == take(sorted, limit));
    assert(rows == sorted);
    assert forall|i: int| 0 <= i < entries.len() implies ((fuzzy_match(query, entries[i].name) is Some
        || fuzzy_match(query, entries[i].exe_basename) is Some) <==> exists|k: int|
        0 <= k < rows.len() && #[trigger] rows[k].entry == entries[i]) by {
        lemma_best_match_either(query, entries[i]);
        if best_match(query, entries[i]) is Some {
            let k = choose|k: int| 0 <= k < all.len() && #[trigger] all[k].entry == entries[i];
            assert(all.contains(all[k]));
            assert(sorted.contains(all[k]));
            let j = choose|j: int| 0 <= j < sorted.len() && sorted[j] == all[k];
            assert(rows[j].entry == entries[i]);
        }
        if exists|k: int| 0 <= k < rows.len() && #[trigger] rows[k].entry == entries[i] {
            let k = choose|k: int| 0 <= k < rows.len() && #[trigger] rows[k].entry == entries[i];
            assert(sorted.contains(sorted[k]));
            assert(all.contains(sorted[k]));
            let j = choose|j: int| 0 <= j < all.len() && all[j] == sorted[k];
            let i2 = choose|i2: int| 0 <= i2 < entries.len() && entries[i2] == all[j].entry
                && #[trigger] scored_as(query, entries[i2], all[j].score);
            assert(entries[i2] == entries[i]);
        }
    }
    assert forall|k: int| 0 <= k < rows.len() implies exists|i: int|
        0 <= i < entries.len() && entries[i] == #[trigger] rows[k].entry
        && scored_as(query, entries[i], rows[k].score) by {
        assert(sorted.contains(sorted[k]));
        assert(all.contains(sorted[k]));
        let j = choose|j: int| 0 <= j < all.len() && all[j] == sorted[k];
        assert(all[j] == rows[k]);
    }
}

/// Every entry that matches the query, with its best score, in catalogue
/// order.
pub open spec fn scored_all(query: Seq<char>, entries: Seq<EntryView>) -> Seq<ScoredView>
    decreases entries.len(),
{
    if entries.len() == 0 {
        Seq::empty()
    } else {
        let rest = scored_all(query, entries.drop_last());
        match best_match(query, entries.last()) {
            Some(m) => rest.push(ScoredView { entry: entries.last(), score: m.score as i32, positions: m.positions }),
            None => rest,
        }
    }
}

/// The first `n` elements of `s` (all of them when there are fewer).
pub open spec fn take<T>(s: Seq<T>, n: int) -> Seq<T> {
    if s.len() <= n { s } else { s.subrange(0, n) }
}

/// An unscored result row for an entry.
pub open spec fn unscored(e: EntryView) -> ScoredView {
    ScoredView { entry: e, score: 0, positions: Seq::empty() }
}

/// The results of a query over a catalogue, capped at `limit` rows: for a
/// blank query the catalogue in name order, unscored; otherwise the
/// matching entries in rank order.
pub open spec fn query_results(query: Seq<char>, entries: Seq<EntryView>, limit: int) -> Seq<ScoredView> {
    if trim(query).len() == 0 {
        take(sort_by(entries, by_name()), limit).map_values(|e: EntryView| unscored(e))
    } else {
        take(sort_by(scored_all(query, entries), by_rank()), limit)
    }
}

/// Events the launcher window sends to the engine.
#[derive(Clone, Debug, PartialEq, Eq)]
pub enum LauncherEvent {
    /// Move the cursor down one row.
    Down,
    /// Move the cursor up one row.
    Up,
    /// Move the cursor down by the given number of rows.
    PageDown(usize),
    /// Move the cursor up by the given number of rows.
    PageUp(usize),
    /// Move the cursor to the first row.
    Home,
    /// Confirm the highlighted row.
    Confirm,
    /// Escape was pressed.
    Escape,
    /// The query text changed.
    QueryChanged(String),
}

/// Soft errors of the launcher.
#[derive(Clone, Debug, PartialEq, Eq, Structural)]
pub enum LauncherError {
    /// The platform indexer could not be reached.
    IndexerUnavailable,
    /// The selected entry's path no longer exists.
    EntryMissing,
    /// Starting the process failed, with its Win32 error code.
    LaunchFailed(u32),
}

/// A launcher window that other subsystems can open and close.
pub trait Launcher {
    /// Open the window; repeated calls while open do nothing.
    fn open(&self);
    /// Close the window.
    fn close(&self);
    /// Whether the window is visible.
    fn is_open(&self) -> bool;
}

/// How far a cursor event moves the cursor, if it is one.
pub open spec fn event_delta(ev: LauncherEvent) -> Option<int> {
    match ev {
        LauncherEvent::Down => Some(1),
        LauncherEvent::Up => Some(-1),
        LauncherEvent::PageDown(n) => Some((n as i64) as int),
        LauncherEvent::PageUp(n) => Some(-((n as i64) as int)),
        _ => None,
    }
}

/// `v` clamped into `[lo, hi]`.
pub open spec fn clamp_int(v: int, lo: int, hi: int) -> int {
    if v < lo { lo } else if v > hi { hi } else { v }
}

/// The launcher's state: the catalogue, visibility, the query, the ranked
/// results and the highlighted row.
pub struct LauncherEngine {
    index: AppIndex,
    open: bool,
    query: String,
    results: Vec<ScoredEntry>,
    selection: usize,
    max_results: usize,
}

impl LauncherEngine {
    /// The catalogue.
    pub closed spec fn entries(&self) -> Seq<EntryView> {
        self.index@
    }

    /// Whether the window is visible.
    pub closed spec fn opened(&self) -> bool {
        self.open
    }

    /// The current query text.
    pub closed spec fn query_text(&self) -> Seq<char> {
        self.query@
    }

    /// The displayed result rows.
    pub closed spec fn rows(&self) -> Seq<ScoredView> {
        scored_views(self.results@)
    }

    /// The highlighted row.
    pub closed spec fn cursor(&self) -> int {
        self.selection as int
    }

    /// The cap on displayed rows.
    pub closed spec fn limit(&self) -> int {
        self.max_results as int
    }

    /// The catalogue is well formed, the rows fit under the cap, and the
    /// cursor is on a row (or at 0 when there is none).
    pub closed spec fn wf(&self) -> bool {
        &&& self.index.wf()
        &&& self.results@.len() <= self.max_results
        &&& (self.selection < self.results@.len() || self.selection == 0)
    }

    /// An engine over an already populated catalogue, closed, with no
    /// query and no rows.
    pub fn new(index: AppIndex, max_results: usize) -> (r: Self)
        requires
            index.wf(),
        ensures
            r.wf(),
            r.entries() == index@,
            !r.opened(),
            r.query_text() == Seq::<char>::empty(),
            r.rows() == Seq::<ScoredView>::empty(),
            r.cursor() == 0,
            r.limit() == max_results,
    {
        let r = LauncherEngine {
            index,
            open: false,
            query: String::new(),
            results: Vec::new(),
            selection: 0,
            max_results,
        };
        assert(r.rows() =~= Seq::<ScoredView>::empty());
        r
    }

    /// An engine with an empty catalogue.
    pub fn empty(max_results: usize) -> (r: Self)
        ensures
            r.wf(),
            r.entries() == Seq::<EntryView>::empty(),
            !r.opened(),
            r.query_text() == Seq::<char>::empty(),
            r.rows() == Seq::<ScoredView>::empty(),
            r.cursor() == 0,
            r.limit() == max_results,
    {
        Self::new(AppIndex::new(), max_results)
    }

    /// Replace the catalogue; rows, cursor and query stay.
    pub fn replace_index(&mut self, index: AppIndex)
        requires
            old(self).wf(),
            index.wf(),
        ensures
            final(self).wf(),
            final(self).entries() == index@,
            final(self).opened() == old(self).opened(),
            final(self).query_text() == old(self).query_text(),
            final(self).rows() == old(self).rows(),
            final(self).cursor() == old(self).cursor(),
            final(self).limit() == old(self).limit(),
    {
        self.index = index;
    }

    /// Whether the window is visible.
    pub fn is_open(&self) -> (r: bool)
        ensures
            r == self.opened(),
    {
        self.open
    }

    /// A copy of the displayed rows.
    pub fn visible_results(&self) -> (r: Vec<ScoredEntry>)
        ensures
            scored_views(r@) == self.rows(),
    {
        let mut out: Vec<ScoredEntry> = Vec::new();
        let mut i: usize = 0;
        while i < self.results.len()
            invariant
                i <= self.results@.len(),
                out@.len() == i,
                scored_views(out@) == scored_views(self.results@.subrange(0, i as int)),
            decreases self.results@.len() - i,
        {
            let e = self.results[i].clone();
            let ghost prev = out@;
            out.push(e);
            assert forall|k: int| 0 <= k < i + 1 implies #[trigger] scored_views(out@)[k]
                == scored_views(self.results@.subrange(0, i + 1))[k] by {
                if k < i {
                    assert(scored_views(prev)[k] == scored_views(self.results@.subrange(0, i as int))[k]);
                }
            }
            i = i + 1;
            assert(scored_views(out@) =~= scored_views(self.results@.subrange(0, i as int)));
        }
        assert(self.results@.subrange(0, i as int) =~= self.results@);
        out
    }

    /// The highlighted row.
    pub fn selection(&self) -> (r: usize)
        ensures
            r == self.cursor(),
    {
        self.selection
    }

    /// The current query text.
    pub fn query(&self) -> (r: &str)
        ensures
            r@ == self.query_text(),
    {
        self.query.as_str()
    }

    /// Toggle visibility and return the new state; opening clears the
    /// query, the rows and the cursor.
    pub fn toggle(&mut self) -> (now_open: bool)
        requires
            old(self).wf(),
        ensures
            final(self).wf(),
            now_open == !old(self).opened(),
            final(self).opened() == now_open,
            final(self).entries() == old(self).entries(),
            final(self).limit() == old(self).limit(),
            now_open ==> final(self).query_text() == Seq::<char>::empty() && final(self).rows()
                == Seq::<ScoredView>::empty() && final(self).cursor() == 0,
            !now_open ==> final(self).query_text() == old(self).query_text() && final(self).rows()
                == old(self).rows() && final(self).cursor() == old(self).cursor(),
    {
        self.open = !self.open;
        if self.open {
            self.query = String::new();
            self.results = Vec::new();
            self.selection = 0;
            assert(self.rows() =~= Seq::<ScoredView>::empty());
        }
        self.open
    }

    /// Open the window with an empty query, no rows and the cursor at 0.
    pub fn open(&mut self)
        requires
            old(self).wf(),
        ensures
            final(self).wf(),
            final(self).opened(),
            final(self).entries() == old(self).entries(),
            final(self).limit() == old(self).limit(),
            final(self).query_text() == Seq::<char>::empty(),
            final(self).rows() == Seq::<ScoredView>::empty(),
            final(self).cursor() == 0,
    {
        self.open = true;
        self.query = String::new();
        self.results = Vec::new();
        self.selection = 0;
        assert(self.rows() =~= Seq::<ScoredView>::empty());
    }

    /// Close the window; everything else stays.
    pub fn close(&mut self)
        requires
            old(self).wf(),
        ensures
            final(self).wf(),
            !final(self).opened(),
            final(self).entries() == old(self).entries(),
            final(self).limit() == old(self).limit(),
            final(self).query_text() == old(self).query_text(),
            final(self).rows() == old(self).rows(),
            final(self).cursor() == old(self).cursor(),
    {
        self.open = false;
    }

    /// The event stays inside the range of the signed arithmetic that moves
    /// the cursor.
    pub open spec fn event_fits(&self, ev: LauncherEvent) -> bool {
        &&& (ev matches LauncherEvent::PageUp(n) ==> (n as i64) != i64::MIN)
        &&& (self.rows().len() > 0 && event_delta(ev) is Some ==> self.cursor() + event_delta(ev)->0
            <= i64::MAX)
    }

    /// Handle one window event; returns the id of the row the cursor lands
    /// on for cursor moves, the confirmed id for `Confirm`, and nothing
    /// otherwise.
    pub fn handle(&mut self, ev: LauncherEvent) -> (r: Option<u64>)
        requires
            old(self).wf(),
            old(self).event_fits(ev),
            ev matches LauncherEvent::QueryChanged(q) ==> q@.len() <= QUERY_LIMIT,
        ensures
            final(self).wf(),
            final(self).entries() == old(self).entries(),
            final(self).limit() == old(self).limit(),
            match ev {
                LauncherEvent::Escape => {
                    &&& !final(self).opened()
                    &&& final(self).query_text() == old(self).query_text()
                    &&& final(self).rows() == old(self).rows()
                    &&& final(self).cursor() == old(self).cursor()
                    &&& r is None
                },
                LauncherEvent::QueryChanged(q) => {
                    &&& final(self).opened() == old(self).opened()
                    &&& final(self).query_text() == q@
                    &&& final(self).rows() == query_results(q@, old(self).entries(), old(self).limit())
                    &&& final(self).cursor() == 0
                    &&& r is None
                },
                LauncherEvent::Confirm => {
                    &&& final(self).opened() == old(self).opened()
                    &&& final(self).query_text() == old(self).query_text()
                    &&& final(self).rows() == old(self).rows()
                    &&& final(self).cursor() == old(self).cursor()
                    &&& r == (if old(self).cursor() < old(self).rows().len() {
                        Some(old(self).rows()[old(self).cursor()].entry.id)
                    } else {
                        None::<u64>
                    })
                },
                _ => {
                    let n = old(self).rows().len();
                    let target = match ev {
                        LauncherEvent::Home => 0,
                        _ => clamp_int(old(self).cursor() + event_delta(ev)->0, 0, n - 1),
                    };
                    &&& final(self).opened() == old(self).opened()
                    &&& final(self).query_text() == old(self).query_text()
                    &&& final(self).rows() == old(self).rows()
                    &&& n == 0 ==> final(self).cursor() == old(self).cursor() && r is None
                    &&& n > 0 ==> final(self).cursor() == target && r == Some(
                        old(self).rows()[target].entry.id,
                    )
                },
            },
    {
        match ev {
            LauncherEvent::Down => self.move_selection(1),
            LauncherEvent::Up => self.move_selection(-1),
            LauncherEvent::PageDown(n) => self.move_selection(n as i64),
            LauncherEvent::PageUp(n) => self.move_selection(-(n as i64)),
            LauncherEvent::Home => self.set_selection(0),
            LauncherEvent::Confirm => self.confirm(),
            LauncherEvent::Escape => {
                self.close();
                None
            },
            LauncherEvent::QueryChanged(q) => {
                self.update_query(q.as_str());
                None
            },
        }
    }

    fn move_selection(&mut self, delta: i64) -> (r: Option<u64>)
        requires
            old(self).wf(),
            old(self).rows().len() > 0 ==> old(self).cursor() + delta <= i64::MAX,
        ensures
            final(self).wf(),
            final(self).entries() == old(self).entries(),
            final(self).limit() == old(self).limit(),
            final(self).opened() == old(self).opened(),
            final(self).query_text() == old(self).query_text(),
            final(self).rows() == old(self).rows(),
            old(self).rows().len() == 0 ==> final(self).cursor() == old(self).cursor() && r is None,
            old(self).rows().len() > 0 ==> {
                let t = clamp_int(old(self).cursor() + delta, 0, old(self).rows().len() - 1);
                final(self).cursor() == t && r == Some(old(self).rows()[t].entry.id)
            },
    {
        if self.results.len() == 0 {
            return None;
        }
        let len = self.results.len();
        let next: usize = if delta >= 0 {
            let d = delta as u64;
            if (d as u128) >= ((len - 1 - self.selection) as u128) {
                len - 1
            } else {
                self.selection + (d as usize)
            }
        } else {
            let d: u64 = if delta == i64::MIN { 0x8000_0000_0000_0000u64 } else { (-delta) as u64 };
            if (d as u128) >= (self.selection as u128) {
                0
            } else {
                self.selection - (d as usize)
            }
        };
        self.selection = next;
        assert(self.rows()[next as int] == self.results@[next as int]@);
        Some(self.results[next].entry.id)
    }

    fn set_selection(&mut self, idx: usize) -> (r: Option<u64>)
        requires
            old(self).wf(),
        ensures
            final(self).wf(),
            final(self).entries() == old(self).entries(),
            final(self).limit() == old(self).limit(),
            final(self).opened() == old(self).opened(),
            final(self).query_text() == old(self).query_text(),
            final(self).rows() == old(self).rows(),
            old(self).rows().len() == 0 ==> final(self).cursor() == old(self).cursor() && r is None,
            old(self).rows().len() > 0 ==> {
                let t = if idx < old(self).rows().len() - 1 { idx as int } else { old(self).rows().len() - 1 };
                final(self).cursor() == t && r == Some(old(self).rows()[t].entry.id)
            },
    {
        let len = self.results.len();
        if len == 0 {
            return None;
        }
        self.selection = if idx < len - 1 { idx } else { len - 1 };
        assert(self.rows()[self.selection as int] == self.results@[self.selection as int]@);
        Some(self.results[self.selection].entry.id)
    }

    fn confirm(&self) -> (r: Option<u64>)
        ensures
            r == (if self.cursor() < self.rows().len() {
                Some(self.rows()[self.cursor()].entry.id)
            } else {
                None::<u64>
            }),
    {
        if self.selection < self.results.len() {
            assert(self.rows()[self.cursor()] == self.results@[self.selection as int]@);
            Some(self.results[self.selection].entry.id)
        } else {
            None
        }
    }

    /// Store the query and recompute the rows (see [`query_results`]); the
    /// cursor returns to the first row.
    pub fn update_query(&mut self, query: &str)
        requires
            old(self).wf(),
            query@.len() <= QUERY_LIMIT,
        ensures
            final(self).wf(),
            final(self).entries() == old(self).entries(),
            final(self).limit() == old(self).limit(),
            final(self).opened() == old(self).opened(),
            final(self).query_text() == query@,
            final(self).rows() == query_results(query@, old(self).entries(), old(self).limit()),
            final(self).cursor() == 0,
    {
        self.query = owned(query);
        if is_blank(query) {
            let all = self.index.drain();
            let sorted = sort_entries_by_name(&all);
            let ghost want = take(sort_by(self.index@, by_name()), self.max_results as int);
            let mut rows: Vec<ScoredEntry> = Vec::new();
            let mut i: usize = 0;
            while i < sorted.len() && i < self.max_results
                invariant
                    entry_views(sorted@) == sort_by(self.index@, by_name()),
                    i <= sorted@.len(),
                    i <= self.max_results,
                    rows@.len() == i,
                    forall|k: int| 0 <= k < i ==> #[trigger] scored_views(rows@)[k] == unscored(entry_views(sorted@)[k]),
                decreases sorted@.len() - i,
            {
                let e = sorted[i].clone();
                let ghost prev = rows@;
                rows.push(ScoredEntry { entry: e, score: 0, matched_positions: Vec::new() });
                assert forall|k: int| 0 <= k < i + 1 implies #[trigger] scored_views(rows@)[k] == unscored(entry_views(sorted@)[k]) by {
                    if k < i {
                        assert(scored_views(prev)[k] == unscored(entry_views(sorted@)[k]));
                    } else {
                        assert(rows@[k].matched_positions@ =~= Seq::<usize>::empty());
                    }
                }
                i = i + 1;
            }
            assert(scored_views(rows@) =~= want.map_values(|e: EntryView| unscored(e)));
            self.results = rows;
            self.selection = 0;
            return;
        }
        let mut scored: Vec<ScoredEntry> = Vec::new();
        let entries = self.index.iter();
        let mut i: usize = 0;
        assert(entry_views(entries@).subrange(0, 0) =~= Seq::<EntryView>::empty());
        while i < entries.len()
            invariant
                entry_views(entries@) == self.index@,
                query@.len() <= QUERY_LIMIT,
                i <= entries@.len(),
                scored_views(scored@) == scored_all(query@, entry_views(entries@).subrange(0, i as int)),
            decreases entries@.len() - i,
        {
            let e = &entries[i];
            let ghost ev = e@;
            let ghost pre = entry_views(entries@).subrange(0, i + 1);
            assert(pre.drop_last() =~= entry_views(entries@).subrange(0, i as int));
            assert(pre.last() == ev);
            let name_score = fuzzy_score(query, e.name.as_str());
            let base_score = fuzzy_score(query, e.exe_basename.as_str());
            let best = match name_score {
                Some(a) => match base_score {
                    Some(b) => if a.score >= b.score { Some(a) } else { Some(b) },
                    None => Some(a),
                },
                None => base_score,
            };
            match best {
                Some(b) => {
                    let ghost prev = scored@;
                    let row = ScoredEntry { entry: e.clone(), score: b.score, matched_positions: b.matched_positions };
                    scored.push(row);
                    assert(scored_views(scored@) =~= scored_views(prev).push(row@));
                },
                None => {},
            }
            i = i + 1;
        }
        assert(entry_views(entries@).subrange(0, i as int) =~= self.index@);
        let mut ranked = sort_by_rank(&scored);
        ranked.truncate(self.max_results);
        assert(scored_views(ranked@) =~= query_results(query@, self.index@, self.max_results as int));
        self.results = ranked;
        self.selection = 0;
    }
}

} // verus!
