use compbot::store::CodeStore;
use compbot::TTL_SECS;

fn dump_sorted(store: &CodeStore) -> Vec<(u64, u64, u64)> {
    let mut d = store.dump_codes();
    d.sort();
    d
}

#[test]
fn redeem_succeeds_once_then_fails() {
    let mut store = CodeStore::new();
    store.issue_code(1, 123456, 1_000);
    assert!(store.check_code(1, 123456, 1_100));
    assert!(!store.check_code(1, 123456, 1_100));
}

#[test]
fn redeem_without_issue_fails_and_creates_nothing() {
    let mut store = CodeStore::new();
    assert!(!store.check_code(5, 42, 10));
    assert!(store.dump_codes().is_empty());
}

#[test]
fn expiry_boundary_is_strict() {
    let t = 10_000;
    let mut store = CodeStore::new();
    store.issue_code(3, 777, t);
    // Exactly at the end of the window the code still redeems.
    assert!(store.check_code(3, 777, t + TTL_SECS));

    // One second past the window it does not, and the failed attempt
    // sweeps the entry away even though nothing was redeemed.
    store.issue_code(3, 777, t);
    assert!(!store.check_code(3, 777, t + TTL_SECS + 1));
    assert!(store.dump_codes().is_empty());
}

#[test]
fn expired_redeem_sweeps_other_stale_entries_too() {
    let mut store = CodeStore::new();
    store.issue_code(1, 11, 100);
    store.issue_code(2, 22, 100);
    store.issue_code(3, 33, 5_000);
    // Redeeming requester 1's stale code fails and sweeps requester 2's
    // equally stale entry; requester 3's fresh entry survives.
    assert!(!store.check_code(1, 11, 100 + TTL_SECS + 1));
    assert_eq!(dump_sorted(&store), vec![(3, 33, 5_000)]);
}

#[test]
fn sweep_removes_exactly_the_expired_entries() {
    let mut store = CodeStore::new();
    store.issue_code(1, 10, 1_000);
    store.issue_code(2, 20, 2_000);
    store.issue_code(3, 30, 9_000);
    store.issue_code(4, 40, 9_500);
    // At this moment the first two entries are older than the window.
    let now = 2_000 + TTL_SECS + 1;
    store.clean_codes(now);
    // Exactly the two fresh entries remain, timestamps untouched.
    assert_eq!(dump_sorted(&store), vec![(3, 30, 9_000), (4, 40, 9_500)]);
}

#[test]
fn sweep_is_idempotent() {
    let mut store = CodeStore::new();
    store.issue_code(1, 10, 1_000);
    store.issue_code(2, 20, 50_000);
    let now = 1_000 + TTL_SECS + 1;
    store.clean_codes(now);
    let once = dump_sorted(&store);
    store.clean_codes(now);
    assert_eq!(dump_sorted(&store), once);
}

#[test]
fn codes_do_not_cross_requesters() {
    let mut store = CodeStore::new();
    store.issue_code(1, 654321, 100);
    // The same numeric value presented by someone else is refused...
    assert!(!store.check_code(2, 654321, 150));
    // ...and the issuing requester's entry is untouched by the attempt.
    assert_eq!(dump_sorted(&store), vec![(1, 654321, 100)]);
    assert!(store.check_code(1, 654321, 150));
}

#[test]
fn two_attempts_on_one_live_entry_yield_exactly_one_success() {
    // Calls on the store serialize under its exclusive lock, so a race of
    // two redemptions takes effect as one order or the other; both orders
    // give one success and one refusal.
    let mut store = CodeStore::new();
    store.issue_code(9, 300_000, 500);
    let first = store.check_code(9, 300_000, 600);
    let second = store.check_code(9, 300_000, 600);
    assert!(first ^ second);
    assert!(first);
}

#[test]
fn reissue_keeps_the_newest_code_redeemable() {
    let mut store = CodeStore::new();
    store.issue_code(4, 111, 1_000);
    store.issue_code(4, 222, 1_200);
    assert!(store.check_code(4, 222, 1_300));
    assert!(!store.check_code(4, 222, 1_300));
}

#[test]
fn reissuing_the_same_code_overwrites_the_timestamp() {
    let mut store = CodeStore::new();
    store.issue_code(6, 555, 100);
    store.issue_code(6, 555, 10_000);
    assert_eq!(dump_sorted(&store), vec![(6, 555, 10_000)]);
    // The fresh timestamp governs expiry: the old one would be stale here.
    assert!(store.check_code(6, 555, 10_000 + TTL_SECS));
}

#[test]
fn dump_lists_every_live_entry_exactly_once() {
    let mut store = CodeStore::new();
    store.issue_code(1, 10, 100);
    store.issue_code(2, 20, 200);
    store.issue_code(1, 30, 300);
    assert_eq!(
        dump_sorted(&store),
        vec![(1, 10, 100), (1, 30, 300), (2, 20, 200)]
    );
    // Dumping mutates nothing.
    assert_eq!(dump_sorted(&store).len(), 3);
}
