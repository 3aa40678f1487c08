use vstd::prelude::*;

pub mod laws;
pub mod store;
pub mod text;
pub mod workflow;

verus! {

/// Validity window for an issued verification code, in seconds (30 minutes).
pub const TTL_SECS: u64 = 30 * 60;

/// Largest value a verification code can take: six decimal digits.
pub const MAX_CODE: u64 = 999_999;

/// A code issued at `issued_at` is expired at `now` when its age strictly
/// exceeds the validity window; exactly at the boundary it is still valid.
pub open spec fn is_expired(issued_at: u64, now: u64) -> bool {
    now > issued_at + TTL_SECS
}

/// Executable form of the age test.
pub fn expired(issued_at: u64, now: u64) -> (r: bool)
    ensures
        r == is_expired(issued_at, now),
{
    now > issued_at && now - issued_at > TTL_SECS
}

} // verus!
