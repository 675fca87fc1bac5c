use jacquewm::notifications::{NotificationManager, NotificationRequest, Severity};

fn with_id(id: u64, title: &str, body: &str) -> NotificationRequest {
    let mut r = NotificationRequest::info(title, body);
    r.id = Some(id);
    r
}

#[test]
fn lifetime_cap_drops_oldest() {
    let mut m = NotificationManager::new(5000, 2);
    m.submit_internal(with_id(1, "a", "b"));
    m.submit_internal(with_id(2, "a", "b"));
    m.submit_internal(with_id(3, "a", "b"));
    let snap = m.snapshot();
    assert_eq!(snap.len(), 2);
    assert!(snap.iter().any(|n| n.id == 2));
    assert!(snap.iter().any(|n| n.id == 3));
    assert!(!snap.iter().any(|n| n.id == 1));
}

#[test]
fn same_id_replaces_existing() {
    let mut m = NotificationManager::new(5000, 4);
    m.submit_internal(with_id(42, "first", "body"));
    m.submit_internal(with_id(42, "second", "body"));
    let snap = m.snapshot();
    assert_eq!(snap.len(), 1);
    assert_eq!(snap[0].request.title, "second");
}

#[test]
fn automatic_ids_count_up_and_expiry_sweeps() {
    let mut m = NotificationManager::new(1000, 4);
    let a = m.submit_at(NotificationRequest::warning("w", "x"), 100);
    let b = m.submit_at(NotificationRequest::error("e", "y"), 200);
    assert_eq!((a, b), (1, 2));
    let mut quick = NotificationRequest::success("s", "z");
    quick.timeout_ms = Some(10);
    let c = m.submit_at(quick, 300);
    assert_eq!(c, 3);
    let gone = m.sweep_expired_at(1099);
    assert_eq!(gone, vec![3]);
    let gone = m.sweep_expired_at(1100);
    assert_eq!(gone, vec![1]);
    let snap = m.snapshot();
    assert_eq!(snap.len(), 1);
    assert_eq!(snap[0].id, 2);
    m.dismiss(2);
    assert!(m.snapshot().is_empty());
}

#[test]
fn snapshot_orders_by_birth() {
    let mut m = NotificationManager::new(1000, 4);
    m.submit_at(with_id(7, "late", ""), 500);
    m.submit_at(with_id(8, "early", ""), 100);
    let snap = m.snapshot();
    assert_eq!(snap[0].id, 8);
    assert_eq!(snap[1].id, 7);
}

#[test]
fn zero_cap_shows_nothing() {
    let mut m = NotificationManager::new(1000, 0);
    let id = m.submit_at(NotificationRequest::info("a", "b"), 1);
    assert_eq!(id, 1);
    assert!(m.snapshot().is_empty());
}

#[test]
fn severity_glyphs() {
    assert_eq!(Severity::Info.glyph(), "\u{b7}");
    assert_eq!(Severity::Success.glyph(), "\u{2713}");
    assert_eq!(Severity::Warning.glyph(), "!");
    assert_eq!(Severity::Error.glyph(), "\u{2717}");
}
