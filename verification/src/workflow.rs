use vstd::prelude::*;

use crate::MAX_CODE;
use crate::store::CodeStore;
use crate::store::redeem_ok;
use crate::store::redeem_post;

verus! {

/// A membership record as the external directory reports it: the record
/// identifier and the two name parts, read transiently to compose a greeting.
pub struct CSUser {
    pub id: u64,
    pub first_name: String,
    pub last_name: String,
}

impl From<(u64, String, String)> for CSUser {
    fn from(value: (u64, String, String)) -> (r: CSUser) {
        CSUser { id: value.0, first_name: value.1, last_name: value.2 }
    }
}

impl vstd::std_specs::convert::FromSpecImpl<(u64, String, String)> for CSUser {
    open spec fn obeys_from_spec() -> bool {
        true
    }

    open spec fn from_spec(value: (u64, String, String)) -> CSUser {
        CSUser { id: value.0, first_name: value.1, last_name: value.2 }
    }
}

/// Which role the handle check grants: the member role on a directory match,
/// the restricted non-member role (best-effort) otherwise.
#[derive(Clone, Copy, Debug, PartialEq, Eq, Structural)]
pub enum RoleAction {
    GrantMember,
    GrantNonMember,
}

/// Decides the handle-based path from the directory's answer: a matching
/// record verifies the requester, who gets the member role; with no match the
/// non-member role is granted instead and further verification is required.
pub fn verify_member(record_found: bool) -> (r: (RoleAction, bool))
    ensures
        record_found ==> r == (RoleAction::GrantMember, true),
        !record_found ==> r == (RoleAction::GrantNonMember, false),
{
    if record_found {
        (RoleAction::GrantMember, true)
    } else {
        (RoleAction::GrantNonMember, false)
    }
}

/// Relies on rand::Rng::gen_range over rand::thread_rng: a value drawn
/// uniformly at random from the inclusive range it is handed.
#[verifier::external_body]
fn random_code() -> (c: u64)
    ensures
        c <= MAX_CODE,
{
    rand::Rng::gen_range(&mut rand::thread_rng(), 0..=MAX_CODE)
}

/// Starts the email path once the directory has answered: with a record in
/// hand, a fresh code is drawn at random for delivery; with none, no code
/// comes into being and the request ends here.
pub fn begin_email_request(record_found: bool) -> (r: Option<u64>)
    ensures
        record_found == (r is Some),
        r matches Some(code) ==> code <= MAX_CODE,
{
    if record_found {
        Some(random_code())
    } else {
        None
    }
}

/// How a request for an email code ended, as reported to the requester.
#[derive(Clone, Copy, Debug, PartialEq, Eq, Structural)]
pub enum EmailRequestOutcome {
    /// The directory knows nothing of the address; nothing was issued.
    EmailNotFound,
    /// Delivery was confirmed and the code is now live for the requester.
    CodeIssued,
    /// Delivery failed; no code was issued.
    DeliveryFailed,
}

/// Ends the email path after the notifier has reported: on confirmed delivery
/// the code is recorded for the requester at `now`; on failure nothing is
/// issued, so a code never exists without having been delivered.
pub fn finish_email_request(
    store: &mut CodeStore,
    requester: u64,
    code: u64,
    delivered: bool,
    now: u64,
) -> (r: EmailRequestOutcome)
    requires
        code <= MAX_CODE,
    ensures
        delivered ==> final(store)@ == old(store)@.insert((requester, code), now)
            && r == EmailRequestOutcome::CodeIssued,
        !delivered ==> final(store)@ == old(store)@ && r == EmailRequestOutcome::DeliveryFailed,
{
    if delivered {
        store.issue_code(requester, code, now);
        EmailRequestOutcome::CodeIssued
    } else {
        EmailRequestOutcome::DeliveryFailed
    }
}

/// Whether a submitted code verified the requester.
#[derive(Clone, Copy, Debug, PartialEq, Eq, Structural)]
pub enum SubmitOutcome {
    /// A live code matched and was consumed; the member role is owed.
    Verified,
    /// Absent, expired or wrong code: one indistinguishable refusal.
    Rejected,
}

/// Decides the code-submission path: redemption against the store verifies
/// the requester exactly when a live code matches, consuming it. Any other
/// submission is rejected, with no outward distinction among a wrong code, an
/// expired one and none at all.
pub fn submit_email_code(store: &mut CodeStore, requester: u64, code: u64, now: u64) -> (r:
    SubmitOutcome)
    ensures
        (r == SubmitOutcome::Verified) == redeem_ok(old(store)@, requester, code, now),
        final(store)@ == redeem_post(old(store)@, requester, code, now),
{
    if store.check_code(requester, code, now) {
        SubmitOutcome::Verified
    } else {
        SubmitOutcome::Rejected
    }
}

/// Relies on chrono::Utc::now and chrono::DateTime::timestamp: the current
/// wall-clock time as whole seconds since the Unix epoch.
#[verifier::external_body]
fn utc_now_seconds() -> i64 {
    chrono::Utc::now().timestamp()
}

/// The current time for issuance and expiry, as non-negative whole seconds
/// since the Unix epoch.
pub fn current_timestamp() -> u64 {
    let s: i64 = utc_now_seconds();
    if s < 0 {
        0
    } else {
        s as u64
    }
}

} // verus!
