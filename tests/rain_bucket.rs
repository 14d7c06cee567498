use minigames::rain::{spawn_number, spawns, Bucket, RainOutcome, MAX_BUCKET_CAP, MAX_NUMBER};

#[test]
fn fresh_bucket_in_range() {
    for _ in 0..50 {
        let b = Bucket::new();
        assert!(b.cap >= 1 && b.cap < MAX_BUCKET_CAP);
        assert!(!b.is_over());
        assert_eq!(b.outcome(), None);
    }
}

#[test]
fn exact_fill_wins() {
    let mut b = Bucket::with_cap(12);
    b.catch(5);
    assert_eq!(b.cap, 7);
    assert!(!b.is_over());
    b.catch(7);
    assert!(b.is_over());
    assert_eq!(b.outcome(), Some(RainOutcome::Won));
}

#[test]
fn overflow_loses() {
    let mut b = Bucket::with_cap(3);
    b.catch(39);
    assert_eq!(b.cap, -36);
    assert!(b.is_over());
    assert_eq!(b.outcome(), Some(RainOutcome::Lost));
}

#[test]
fn spawn_rule() {
    assert!(!spawns(0));
    assert!(!spawns(94));
    assert!(spawns(95));
    assert!(spawns(99));
    let mut seen = 0;
    for _ in 0..500 {
        if let Some(v) = spawn_number() {
            assert!(v >= 1 && v < MAX_NUMBER);
            seen += 1;
        }
    }
    assert!(seen > 0 && seen < 500);
}

#[test]
fn catch_any_value() {
    let mut b = Bucket::with_cap(10);
    b.catch(-5);
    assert_eq!(b.cap, 15);
    b.catch(100);
    assert_eq!(b.cap, -85);
}
