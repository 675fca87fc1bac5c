use jacquewm::launcher::{fuzzy_score, AppEntry, AppIndex, LauncherEngine, LauncherEvent, ScoredEntry, Source};
use std::cmp::Ordering;

fn entry(name: &str, basename: &str) -> AppEntry {
    let path = format!("/x/{name}");
    AppEntry {
        id: AppEntry::fingerprint(&path),
        name: name.into(),
        exe_basename: basename.into(),
        path,
        source: Source::StartMenu,
    }
}

#[test]
fn exact_match_outranks_subsequence() {
    let mut idx = AppIndex::new();
    idx.insert(entry("Calculator.exe", "Calculator.exe"));
    idx.insert(entry("Calc.exe", "Calc.exe"));
    let mut eng = LauncherEngine::new(idx, 8);
    eng.update_query("calc");
    let res = eng.visible_results();
    assert!(!res.is_empty());
    assert_eq!(res[0].entry.exe_basename, "Calc.exe");
}

#[test]
fn empty_query_returns_alphabetical() {
    let mut idx = AppIndex::new();
    idx.insert(entry("Visual Studio Code", "Code.exe"));
    idx.insert(entry("Calculator.exe", "Calculator.exe"));
    let mut eng = LauncherEngine::new(idx, 8);
    eng.update_query("");
    let res = eng.visible_results();
    assert_eq!(res.len(), 2);
    assert_eq!(res[0].entry.exe_basename, "Calculator.exe");
}

#[test]
fn down_up_clamps() {
    let mut idx = AppIndex::new();
    for n in 0..4 {
        idx.insert(entry(&format!("App{n}.exe"), &format!("App{n}.exe")));
    }
    let mut eng = LauncherEngine::new(idx, 8);
    eng.update_query("app");
    assert_eq!(eng.selection(), 0);
    eng.handle(LauncherEvent::Down);
    assert_eq!(eng.selection(), 1);
    eng.handle(LauncherEvent::Up);
    assert_eq!(eng.selection(), 0);
    eng.handle(LauncherEvent::Up);
    assert_eq!(eng.selection(), 0);
    for _ in 0..10 {
        eng.handle(LauncherEvent::Down);
    }
    assert_eq!(eng.selection(), 3);
}

#[test]
fn escape_closes_window() {
    let mut eng = LauncherEngine::empty(8);
    eng.open();
    assert!(eng.is_open());
    eng.handle(LauncherEvent::Escape);
    assert!(!eng.is_open());
}

#[test]
fn fuzzy_score_returns_none_for_no_match() {
    assert!(fuzzy_score("zzz", "Visual Studio Code").is_none());
}

#[test]
fn fuzzy_score_exact_match_scores_every_position() {
    let s = fuzzy_score("  calc ", "CALC").unwrap();
    assert_eq!(s.score, 1_000_000);
    assert_eq!(s.matched_positions, vec![0, 1, 2, 3]);
    assert_eq!(s.entry.name, "CALC");
    assert_eq!(s.entry.id, 0);
}

#[test]
fn fuzzy_score_counts_bonuses() {
    // c@0: 200 + 50 + 5 (case-folded); a@1: 30 + 10 + 25; l@2: 30 + 10; c@3: 30 + 10
    let s = fuzzy_score("calc", "Calculator").unwrap();
    assert_eq!(s.score, 400);
    assert_eq!(s.matched_positions, vec![0, 1, 2, 3]);
    // v@0: 200 + 50 + 5; s@2: 10; c@14 (case-folded): 5
    let t = fuzzy_score("vsc", "Visual Studio Code").unwrap();
    assert_eq!(t.matched_positions, vec![0, 2, 14]);
    assert_eq!(t.score, 270);
}

#[test]
fn fuzzy_score_blank_query_is_none() {
    assert!(fuzzy_score("   ", "anything").is_none());
    assert!(fuzzy_score("", "anything").is_none());
}

#[test]
fn index_refuses_duplicate_ids() {
    let mut idx = AppIndex::new();
    assert!(idx.insert(entry("A", "a.exe")));
    assert!(!idx.insert(entry("A", "other.exe")));
    assert_eq!(idx.len(), 1);
    assert!(!idx.is_empty());
    let id = AppEntry::fingerprint("/x/A");
    assert_eq!(idx.get(id).unwrap().exe_basename, "a.exe");
    assert!(idx.get(id.wrapping_add(1)).is_none());
    assert_eq!(idx.drain().len(), 1);
    assert_eq!(idx.iter().len(), 1);
}

#[test]
fn fingerprint_is_fnv1a() {
    assert_eq!(AppEntry::fingerprint(""), 0xcbf2_9ce4_8422_2325);
    assert_eq!(AppEntry::fingerprint("a"), 0xaf63_dc4c_8601_ec8c);
}

#[test]
fn results_are_capped_and_confirm_returns_selection() {
    let mut idx = AppIndex::new();
    for n in 0..5 {
        idx.insert(entry(&format!("App{n}.exe"), &format!("App{n}.exe")));
    }
    let mut eng = LauncherEngine::new(idx, 3);
    eng.update_query("app");
    let res = eng.visible_results();
    assert_eq!(res.len(), 3);
    eng.handle(LauncherEvent::PageDown(10));
    assert_eq!(eng.selection(), 2);
    let confirmed = eng.handle(LauncherEvent::Confirm);
    assert_eq!(confirmed, Some(res[2].entry.id));
    eng.handle(LauncherEvent::Home);
    assert_eq!(eng.selection(), 0);
    eng.handle(LauncherEvent::QueryChanged("zzz".into()));
    assert!(eng.visible_results().is_empty());
    assert_eq!(eng.handle(LauncherEvent::Down), None);
    assert_eq!(eng.handle(LauncherEvent::Confirm), None);
    assert_eq!(eng.query(), "zzz");
}

#[test]
fn toggle_opens_with_cleared_state() {
    let mut eng = LauncherEngine::empty(4);
    assert!(!eng.is_open());
    assert!(eng.toggle());
    assert!(eng.is_open());
    assert!(!eng.toggle());
    eng.close();
    assert!(!eng.is_open());
}

#[test]
fn rank_order_prefers_score_then_short_name() {
    let a = fuzzy_score("ab", "ab-long").unwrap();
    let b = fuzzy_score("ab", "abc").unwrap();
    assert_eq!(ScoredEntry::cmp_desc(&b, &a), Ordering::Less);
    assert_eq!(ScoredEntry::cmp_desc(&a, &a), Ordering::Equal);
}

#[test]
fn source_glyphs() {
    assert_eq!(Source::StartMenu.glyph(), "\u{203a}");
    assert_eq!(Source::Pinned.glyph(), "\u{2605}");
    assert_eq!(Source::Manual.glyph(), "+");
}
