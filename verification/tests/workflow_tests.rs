use compbot::expired;
use compbot::store::CodeStore;
use compbot::text::format_code;
use compbot::text::full_name;
use compbot::workflow::begin_email_request;
use compbot::workflow::current_timestamp;
use compbot::workflow::finish_email_request;
use compbot::workflow::submit_email_code;
use compbot::workflow::verify_member;
use compbot::workflow::CSUser;
use compbot::workflow::EmailRequestOutcome;
use compbot::workflow::RoleAction;
use compbot::workflow::SubmitOutcome;
use compbot::MAX_CODE;
use compbot::TTL_SECS;

#[test]
fn age_test_is_strictly_greater_than_the_window() {
    assert!(!expired(1_000, 1_000 + TTL_SECS));
    assert!(expired(1_000, 1_000 + TTL_SECS + 1));
    // A timestamp from the future is not expired.
    assert!(!expired(5_000, 1_000));
}

#[test]
fn handle_match_grants_member_role() {
    assert_eq!(verify_member(true), (RoleAction::GrantMember, true));
    assert_eq!(verify_member(false), (RoleAction::GrantNonMember, false));
}

#[test]
fn no_directory_record_draws_no_code() {
    assert_eq!(begin_email_request(false), None);
}

#[test]
fn a_drawn_code_is_six_decimal_digits_wide() {
    let code = begin_email_request(true).expect("a record should yield a code");
    assert!(code <= MAX_CODE);
}

#[test]
fn failed_delivery_issues_nothing() {
    let mut store = CodeStore::new();
    let outcome = finish_email_request(&mut store, 8, 424_242, false, 700);
    assert_eq!(outcome, EmailRequestOutcome::DeliveryFailed);
    assert!(store.dump_codes().is_empty());
    assert_eq!(
        submit_email_code(&mut store, 8, 424_242, 800),
        SubmitOutcome::Rejected
    );
}

#[test]
fn email_verification_end_to_end() {
    let mut store = CodeStore::new();
    let requester = 31;
    // The directory found the address, so a code is drawn and delivered.
    let code = begin_email_request(true).expect("a record should yield a code");
    let outcome = finish_email_request(&mut store, requester, code, true, 10_000);
    assert_eq!(outcome, EmailRequestOutcome::CodeIssued);
    // Exactly one entry exists, keyed by the requester.
    assert_eq!(store.dump_codes(), vec![(requester, code, 10_000)]);
    // Submitting that code verifies; repeating it is refused.
    assert_eq!(
        submit_email_code(&mut store, requester, code, 10_050),
        SubmitOutcome::Verified
    );
    assert_eq!(
        submit_email_code(&mut store, requester, code, 10_050),
        SubmitOutcome::Rejected
    );
}

#[test]
fn submission_failures_are_indistinguishable() {
    let mut store = CodeStore::new();
    // No code pending at all.
    assert_eq!(submit_email_code(&mut store, 1, 5, 100), SubmitOutcome::Rejected);
    // Wrong code value.
    store.issue_code(1, 6, 100);
    assert_eq!(submit_email_code(&mut store, 1, 5, 150), SubmitOutcome::Rejected);
    // Expired code.
    assert_eq!(
        submit_email_code(&mut store, 1, 6, 100 + TTL_SECS + 1),
        SubmitOutcome::Rejected
    );
}

#[test]
fn codes_are_rendered_zero_padded_to_six_digits() {
    assert_eq!(format_code(0), "000000");
    assert_eq!(format_code(7), "000007");
    assert_eq!(format_code(123_456), "123456");
    assert_eq!(format_code(999_999), "999999");
    assert_eq!(format_code(50_001), "050001");
}

#[test]
fn greeting_name_joins_first_and_last() {
    let user = CSUser::from((12, String::from("Ada"), String::from("Lovelace")));
    assert_eq!(user.id, 12);
    assert_eq!(full_name(&user), "Ada Lovelace");
}

#[test]
fn the_clock_reads_as_seconds() {
    // Nothing is promised of the wall clock beyond being a plain number of
    // seconds; this only exercises the call.
    let _t: u64 = current_timestamp();
}
