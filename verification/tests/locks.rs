//! Locks on pods that are being synchronised.

use kubelet::sync_locks::SyncLocks;

#[test]
fn acquire_then_skip_then_reacquire_after_drop() {
    let mut locks = SyncLocks::new();
    let g = locks.try_acquire("ns/pod").expect("free key must acquire");
    assert!(locks.is_held("ns/pod"));
    assert!(locks.try_acquire("ns/pod").is_none(), "held key must not re-acquire");
    let g2 = locks.try_acquire("ns/other").expect("distinct key acquires");
    locks.release(g);
    assert!(!locks.is_held("ns/pod"));
    assert!(locks.is_held("ns/other"));
    let _g3 = locks.try_acquire("ns/pod").expect("key acquires again after release");
    locks.release(g2);
    assert!(!locks.is_held("ns/other"));
}

#[test]
fn same_name_distinct_uids_share_one_key() {
    let mut locks = SyncLocks::new();
    let _g = locks.try_acquire("default/web-0").unwrap();
    assert!(
        locks.try_acquire("default/web-0").is_none(),
        "same name/key must serialize regardless of pod uid"
    );
}

#[test]
fn a_release_undoes_an_acquisition() {
    let mut locks = SyncLocks::new();
    let _held = locks.try_acquire("a").unwrap();
    let g = locks.try_acquire("b").unwrap();
    locks.release(g);
    assert!(locks.is_held("a"));
    assert!(!locks.is_held("b"));
    assert!(locks.try_acquire("b").is_some());
}
