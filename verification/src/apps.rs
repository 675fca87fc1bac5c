//! Application rules: the first rule (by ascending order, ties in
//! insertion order) that matches a window decides its disposition; with
//! no match the default disposition applies.

use vstd::prelude::*;
use crate::seqs::{insert_sorted, lemma_insert_position, sort_by};
use crate::text::{contains_seq, contains_str, eq_ignore_ascii_case, eq_ignore_case, lower};
use crate::tiling::rules::{LayoutRule, RuleDecision, WindowDisposition};
use crate::wm::{WindowId, WindowMetadata};

verus! {

/// The rules-engine view used by the tiling engine; shared handles
/// implement it over a lock.
pub trait ApplicationRulesEngine {
    /// Resolve a disposition for `window`.
    fn evaluate(&self, window: &WindowMetadata) -> RuleDecision;
    /// Add a rule; lower orders run first.
    fn add(&self, rule: LayoutRule, order: i32);
    /// The rules in evaluation order.
    fn rules(&self) -> Vec<(i32, LayoutRule)>;
    /// Replace the whole rule set.
    fn replace(&self, rules: Vec<(i32, LayoutRule)>);
    /// Replace the default disposition.
    fn set_default(&self, d: WindowDisposition);
}

/// What a rule decides for a window, if it matches.
pub open spec fn spec_match_rule(rule: LayoutRule, meta: WindowMetadata) -> Option<WindowDisposition> {
    match rule {
        LayoutRule::Basename(needle, d) => if eq_ignore_case(meta.process.exe_basename@, needle@) {
            Some(d)
        } else {
            None
        },
        LayoutRule::Class(needle, d) => if eq_ignore_case(meta.class@, needle@) {
            Some(d)
        } else {
            None
        },
        LayoutRule::TitleContains(needle, d) => if contains_seq(meta.title.chars(), needle@) {
            Some(d)
        } else {
            None
        },
        LayoutRule::Transient(d) => if meta.class@.len() == 0 {
            Some(d)
        } else {
            None
        },
        LayoutRule::Default(d) => Some(d),
    }
}

/// A title rule matches a window exactly when its needle occurs in the
/// window's title as a contiguous run of characters; every title matches
/// a rule whose needle is the title itself or any part of it.
pub proof fn lemma_title_rule_is_substring(needle: String, d: WindowDisposition, meta: WindowMetadata)
    ensures
        (spec_match_rule(LayoutRule::TitleContains(needle, d), meta) == Some(d)) <==> exists|i: int|
            0 <= i && i + needle@.len() <= meta.title.chars().len()
            && #[trigger] meta.title.chars().subrange(i, i + needle@.len()) == needle@,
        (spec_match_rule(LayoutRule::TitleContains(needle, d), meta) is None) <==> !exists|i: int|
            0 <= i && i + needle@.len() <= meta.title.chars().len()
            && #[trigger] meta.title.chars().subrange(i, i + needle@.len()) == needle@,
        forall|a: int, b: int| 0 <= a <= b <= meta.title.chars().len() && needle@ == meta.title.chars().subrange(a, b)
            ==> #[trigger] spec_match_rule(LayoutRule::TitleContains(needle, d), meta) == Some(d),
{
    let t = meta.title.chars();
    assert forall|a: int, b: int| 0 <= a <= b <= t.len() && needle@ == t.subrange(a, b)
        implies #[trigger] spec_match_rule(LayoutRule::TitleContains(needle, d), meta) == Some(d) by {
        assert(t.subrange(a, a + needle@.len()) == needle@);
        assert(crate::text::occurs_at(t, needle@, a));
    }
    if exists|i: int| 0 <= i && i + needle@.len() <= t.len() && #[trigger] t.subrange(i, i + needle@.len()) == needle@ {
        let i = choose|i: int| 0 <= i && i + needle@.len() <= t.len() && #[trigger] t.subrange(i, i + needle@.len()) == needle@;
        assert(crate::text::occurs_at(t, needle@, i));
    }
}

/// Name rules compare ignoring ASCII case: a basename or class rule
/// matches exactly when the name has the needle's length and each of its
/// characters equals the needle's up to ASCII case. A transient rule
/// matches exactly the windows without a class, and a default rule every
/// window.
pub proof fn lemma_name_rules_ignore_case(needle: String, d: WindowDisposition, meta: WindowMetadata)
    ensures
        (spec_match_rule(LayoutRule::Basename(needle, d), meta) == Some(d)) <==> (meta.process.exe_basename@.len() == needle@.len()
            && forall|i: int| 0 <= i < needle@.len() ==> lower(#[trigger] meta.process.exe_basename@[i]) == lower(needle@[i])),
        (spec_match_rule(LayoutRule::Class(needle, d), meta) == Some(d)) <==> (meta.class@.len() == needle@.len()
            && forall|i: int| 0 <= i < needle@.len() ==> lower(#[trigger] meta.class@[i]) == lower(needle@[i])),
        (spec_match_rule(LayoutRule::Transient(d), meta) == Some(d)) <==> meta.class@.len() == 0,
        spec_match_rule(LayoutRule::Default(d), meta) == Some(d),
        spec_match_rule(LayoutRule::Basename(needle, d), meta) is Some ==> spec_match_rule(LayoutRule::Basename(needle, d), meta) == Some(d),
        spec_match_rule(LayoutRule::Class(needle, d), meta) is Some ==> spec_match_rule(LayoutRule::Class(needle, d), meta) == Some(d),
{
    let b = meta.process.exe_basename@;
    let c = meta.class@;
    let n = needle@;
    if b.len() == n.len() && forall|i: int| 0 <= i < n.len() ==> lower(#[trigger] b[i]) == lower(n[i]) {
        assert(crate::text::lower_seq(b) =~= crate::text::lower_seq(n));
    }
    if eq_ignore_case(b, n) {
        assert(crate::text::lower_seq(b).len() == b.len());
        assert forall|i: int| 0 <= i < n.len() implies lower(#[trigger] b[i]) == lower(n[i]) by {
            assert(crate::text::lower_seq(b)[i] == crate::text::lower_seq(n)[i]);
        }
    }
    if c.len() == n.len() && forall|i: int| 0 <= i < n.len() ==> lower(#[trigger] c[i]) == lower(n[i]) {
        assert(crate::text::lower_seq(c) =~= crate::text::lower_seq(n));
    }
    if eq_ignore_case(c, n) {
        assert(crate::text::lower_seq(c).len() == c.len());
        assert forall|i: int| 0 <= i < n.len() implies lower(#[trigger] c[i]) == lower(n[i]) by {
            assert(crate::text::lower_seq(c)[i] == crate::text::lower_seq(n)[i]);
        }
    }
}

/// Decide what a rule says about a window: basename and class compare
/// ignoring ASCII case, titles by substring, transient windows are those
/// without a class, and a default rule always matches.
pub fn match_rule(rule: &LayoutRule, meta: &WindowMetadata) -> (r: Option<WindowDisposition>)
    ensures
        r == spec_match_rule(*rule, *meta),
{
    match rule {
        LayoutRule::Basename(needle, d) => {
            if eq_ignore_ascii_case(meta.process.exe_basename.as_str(), needle.as_str()) {
                Some(*d)
            } else {
                None
            }
        },
        LayoutRule::Class(needle, d) => {
            if eq_ignore_ascii_case(meta.class.as_str(), needle.as_str()) {
                Some(*d)
            } else {
                None
            }
        },
        LayoutRule::TitleContains(needle, d) => {
            if contains_str(meta.title.as_str(), needle.as_str()) {
                Some(*d)
            } else {
                None
            }
        },
        LayoutRule::Transient(d) => {
            if meta.class.as_str().is_empty() {
                Some(*d)
            } else {
                None
            }
        },
        LayoutRule::Default(d) => Some(*d),
    }
}

/// Rules ordered by their order value.
pub open spec fn order_le() -> spec_fn((i32, LayoutRule), (i32, LayoutRule)) -> bool {
    |a: (i32, LayoutRule), b: (i32, LayoutRule)| a.0 <= b.0
}

/// The rules in evaluation order: a stable sort by order value.
pub open spec fn sorted_rules(rules: Seq<(i32, LayoutRule)>) -> Seq<(i32, LayoutRule)> {
    sort_by(rules, order_le())
}

/// The first position in `rules` whose rule matches, or `-1`.
pub open spec fn first_match(rules: Seq<(i32, LayoutRule)>, meta: WindowMetadata) -> int
    decreases rules.len(),
{
    if rules.len() == 0 {
        -1
    } else if spec_match_rule(rules[0].1, meta) is Some {
        0
    } else {
        let r = first_match(rules.drop_first(), meta);
        if r < 0 {
            -1
        } else {
            r + 1
        }
    }
}

proof fn lemma_first_match(rules: Seq<(i32, LayoutRule)>, meta: WindowMetadata)
    ensures
        -1 <= first_match(rules, meta) < rules.len(),
        first_match(rules, meta) == -1 <==> (forall|j: int| 0 <= j < rules.len() ==> spec_match_rule(#[trigger] rules[j].1, meta) is None),
        first_match(rules, meta) >= 0 ==> spec_match_rule(rules[first_match(rules, meta)].1, meta) is Some,
        forall|j: int| 0 <= j < first_match(rules, meta) ==> spec_match_rule(#[trigger] rules[j].1, meta) is None,
    decreases rules.len(),
{
    if rules.len() > 0 {
        lemma_first_match(rules.drop_first(), meta);
        assert forall|j: int| 0 < j < rules.len() implies rules[j] == #[trigger] rules.drop_first()[j - 1] by {}
        if spec_match_rule(rules[0].1, meta) is None {
            let r = first_match(rules.drop_first(), meta);
            if r >= 0 {
                assert(rules[r + 1] == rules.drop_first()[r]);
            }
            assert forall|j: int| 0 <= j < first_match(rules, meta) implies spec_match_rule(#[trigger] rules[j].1, meta) is None by {
                if j > 0 {
                    assert(rules[j] == rules.drop_first()[j - 1]);
                }
            }
            if r < 0 {
                assert forall|j: int| 0 <= j < rules.len() implies spec_match_rule(#[trigger] rules[j].1, meta) is None by {
                    if j > 0 {
                        assert(rules[j] == rules.drop_first()[j - 1]);
                    }
                }
            }
        }
    }
}

/// The disposition the engine decides for `meta`, and the rule that
/// decided it.
pub open spec fn spec_decide(rules: Seq<(i32, LayoutRule)>, default: WindowDisposition, meta: WindowMetadata) -> (WindowDisposition, LayoutRule) {
    let s = sorted_rules(rules);
    let i = first_match(s, meta);
    if i >= 0 {
        (spec_match_rule(s[i].1, meta)->0, s[i].1)
    } else {
        (default, LayoutRule::Default(default))
    }
}

/// The engine's decision comes from a matching rule of lowest order: when no
/// rule matches, the default decides; otherwise the deciding rule is one of
/// the rules, it matches the window with the decided disposition, and no
/// rule of strictly lower order matches.
pub proof fn lemma_decide_lowest_matching(rules: Seq<(i32, LayoutRule)>, default: WindowDisposition, meta: WindowMetadata)
    ensures
        (forall|j: int| 0 <= j < rules.len() ==> spec_match_rule(#[trigger] rules[j].1, meta) is None)
            ==> spec_decide(rules, default, meta) == (default, LayoutRule::Default(default)),
        (exists|j: int| 0 <= j < rules.len() && spec_match_rule(#[trigger] rules[j].1, meta) is Some) ==> exists|o: int|
            #[trigger] rules.contains((o as i32, spec_decide(rules, default, meta).1))
            && o == (o as i32)
            && spec_match_rule(spec_decide(rules, default, meta).1, meta) == Some(spec_decide(rules, default, meta).0)
            && forall|j: int| 0 <= j < rules.len() && rules[j].0 < o ==> spec_match_rule(#[trigger] rules[j].1, meta) is None,
{
    let le = order_le();
    let s = sorted_rules(rules);
    assert forall|a: (i32, LayoutRule), b: (i32, LayoutRule)| #[trigger] le(a, b) || le(b, a) by {}
    assert forall|a: (i32, LayoutRule), b: (i32, LayoutRule), c: (i32, LayoutRule)| #[trigger] le(a, b) && #[trigger] le(b, c) implies le(a, c) by {}
    crate::seqs::lemma_sort_by_keeps(rules, le, |x: (i32, LayoutRule)| x.0);
    lemma_first_match(s, meta);
    let i = first_match(s, meta);
    if forall|j: int| 0 <= j < rules.len() ==> spec_match_rule(#[trigger] rules[j].1, meta) is None {
        if i >= 0 {
            assert(s.contains(s[i]));
            assert(rules.contains(s[i]));
            let j = choose|j: int| 0 <= j < rules.len() && rules[j] == s[i];
            assert(spec_match_rule(rules[j].1, meta) is None);
        }
    }
    if exists|j: int| 0 <= j < rules.len() && spec_match_rule(#[trigger] rules[j].1, meta) is Some {
        let j0 = choose|j: int| 0 <= j < rules.len() && spec_match_rule(#[trigger] rules[j].1, meta) is Some;
        assert(rules.contains(rules[j0]));
        assert(s.contains(rules[j0]));
        if i < 0 {
            let k = choose|k: int| 0 <= k < s.len() && s[k] == rules[j0];
            assert(spec_match_rule(s[k].1, meta) is None);
        }
        assert(i >= 0);
        let o = s[i].0 as int;
        assert(s.contains(s[i]));
        assert(rules.contains(s[i]));
        assert(rules.contains((o as i32, spec_decide(rules, default, meta).1)));
        assert forall|j: int| 0 <= j < rules.len() && rules[j].0 < o implies spec_match_rule(#[trigger] rules[j].1, meta) is None by {
            assert(rules.contains(rules[j]));
            assert(s.contains(rules[j]));
            let k = choose|k: int| 0 <= k < s.len() && s[k] == rules[j];
            if k > i {
                assert(le(s[i], s[k]));
            } else if k == i {
            } else {
                assert(spec_match_rule(s[k].1, meta) is None);
            }
        }
    }
}

/// Copy a rule list.
pub fn clone_rules(v: &Vec<(i32, LayoutRule)>) -> (r: Vec<(i32, LayoutRule)>)
    ensures
        r@ == v@,
{
    let mut out: Vec<(i32, LayoutRule)> = Vec::new();
    let mut i: usize = 0;
    while i < v.len()
        invariant
            i <= v@.len(),
            out@ == v@.subrange(0, i as int),
        decreases v@.len() - i,
    {
        let o = v[i].0;
        let rule = v[i].1.clone();
        out.push((o, rule));
        i = i + 1;
        assert(out@ =~= v@.subrange(0, i as int));
    }
    assert(out@ =~= v@);
    out
}

/// Sort rules stably by order value (`sort_by_key` on the order).
pub fn sort_rules(v: Vec<(i32, LayoutRule)>) -> (r: Vec<(i32, LayoutRule)>)
    ensures
        r@ == sorted_rules(v@),
{
    let mut out: Vec<(i32, LayoutRule)> = Vec::new();
    let mut rest = v;
    let ghost orig = rest@;
    let mut i: usize = 0;
    let n = rest.len();
    assert(orig.subrange(0, 0) =~= Seq::<(i32, LayoutRule)>::empty());
    while i < n
        invariant
            n == orig.len(),
            i <= n,
            rest@.len() == n - i,
            forall|k: int| 0 <= k < rest@.len() ==> rest@[k] == orig[i + k],
            out@ == sorted_rules(orig.subrange(0, i as int)),
        decreases n - i,
    {
        let x = rest.remove(0);
        assert(x == orig[i as int]);
        assert(orig.subrange(0, i + 1).drop_last() =~= orig.subrange(0, i as int));
        let mut j: usize = 0;
        while j < out.len() && out[j].0 <= x.0
            invariant
                j <= out@.len(),
                forall|k: int| 0 <= k < j ==> order_le()(#[trigger] out@[k], x),
            decreases out@.len() - j,
        {
            j = j + 1;
        }
        proof {
            lemma_insert_position(out@, x, order_le(), j as int);
        }
        if j < out.len() {
            out.insert(j, x);
        } else {
            out.push(x);
        }
        i = i + 1;
    }
    assert(orig.subrange(0, n as int) =~= orig);
    out
}

/// The in-memory rules engine.
pub struct RulesEngine {
    rules: Vec<(i32, LayoutRule)>,
    default: WindowDisposition,
}

impl RulesEngine {
    /// The stored rules.
    pub closed spec fn spec_rules(&self) -> Seq<(i32, LayoutRule)> {
        self.rules@
    }

    /// The default disposition.
    pub closed spec fn spec_default(&self) -> WindowDisposition {
        self.default
    }

    /// Float transient windows (order -100) and tile everything else.
    pub fn new() -> (r: RulesEngine)
        ensures
            r.spec_rules() == seq![(-100i32, LayoutRule::Transient(WindowDisposition::Float))],
            r.spec_default() == WindowDisposition::Tile,
    {
        let mut rules: Vec<(i32, LayoutRule)> = Vec::new();
        rules.push((-100, LayoutRule::Transient(WindowDisposition::Float)));
        assert(rules@ =~= seq![(-100i32, LayoutRule::Transient(WindowDisposition::Float))]);
        RulesEngine { rules, default: WindowDisposition::Tile }
    }

    /// Resolve a disposition for `window`: the first rule in evaluation
    /// order that matches decides; else the default, reported as a
    /// `Default` rule.
    pub fn evaluate(&self, window: &WindowMetadata) -> (r: RuleDecision)
        ensures
            r.window == window.id,
            r.disposition == spec_decide(self.spec_rules(), self.spec_default(), *window).0,
            r.matched_rule == Some(spec_decide(self.spec_rules(), self.spec_default(), *window).1),
    {
        let sorted = sort_rules(clone_rules(&self.rules));
        proof {
            lemma_first_match(sorted@, *window);
        }
        let mut i: usize = 0;
        while i < sorted.len()
            invariant
                i <= sorted@.len(),
                sorted@ == sorted_rules(self.rules@),
                forall|j: int| 0 <= j < i ==> spec_match_rule(#[trigger] sorted@[j].1, *window) is None,
            decreases sorted@.len() - i,
        {
            match match_rule(&sorted[i].1, window) {
                Some(disp) => {
                    proof {
                        lemma_first_match(sorted@, *window);
                        let q = first_match(sorted@, *window);
                        if 0 <= q < i {
                            assert(spec_match_rule(sorted@[q].1, *window) is None);
                        }
                        assert(q == i);
                    }
                    return RuleDecision { window: window.id, disposition: disp, matched_rule: Some(sorted[i].1.clone()) };
                },
                None => {},
            }
            i = i + 1;
        }
        RuleDecision {
            window: window.id,
            disposition: self.default,
            matched_rule: Some(LayoutRule::Default(self.default)),
        }
    }

    /// Add a rule and keep the rules sorted by order value.
    pub fn add(&mut self, rule: LayoutRule, order: i32)
        ensures
            final(self).spec_rules() == sorted_rules(old(self).spec_rules().push((order, rule))),
            final(self).spec_default() == old(self).spec_default(),
    {
        let mut rules = clone_rules(&self.rules);
        rules.push((order, rule));
        self.rules = sort_rules(rules);
    }

    /// The rules in evaluation order.
    pub fn rules(&self) -> (r: Vec<(i32, LayoutRule)>)
        ensures
            r@ == self.spec_rules(),
    {
        clone_rules(&self.rules)
    }

    /// Replace the rule set, sorted by order value.
    pub fn replace(&mut self, rules: Vec<(i32, LayoutRule)>)
        ensures
            final(self).spec_rules() == sorted_rules(rules@),
            final(self).spec_default() == old(self).spec_default(),
    {
        self.rules = sort_rules(rules);
    }

    /// Replace the default disposition.
    pub fn set_default(&mut self, d: WindowDisposition)
        ensures
            final(self).spec_rules() == old(self).spec_rules(),
            final(self).spec_default() == d,
    {
        self.default = d;
    }
}

impl Default for RulesEngine {
    fn default() -> (r: Self)
        ensures
            r.spec_rules() == seq![(-100i32, LayoutRule::Transient(WindowDisposition::Float))],
            r.spec_default() == WindowDisposition::Tile,
    {
        RulesEngine::new()
    }
}

/// Something that names the window it is about.
pub trait DecisionLookup {
    /// The window id.
    fn id(&self) -> WindowId;
}

impl DecisionLookup for (WindowId, RuleDecision) {
    fn id(&self) -> (r: WindowId)
        ensures
            r == self.0,
    {
        self.0
    }
}

} // verus!
