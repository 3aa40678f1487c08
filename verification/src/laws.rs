use vstd::prelude::*;

use crate::is_expired;
use crate::TTL_SECS;
use crate::store::swept;
use crate::store::redeem_ok;
use crate::store::redeem_post;
use vstd::set_lib::lemma_set_disjoint_lens;

verus! {

/// At-most-once redemption: once redeeming (requester, code) has succeeded,
/// no later attempt on the same pair can succeed, whenever it is made, and
/// that failing attempt leaves the store unchanged. Two redemptions racing
/// for one live entry serialize under the store's exclusive lock, so exactly
/// one of them is the successful first.
pub proof fn lemma_redeem_at_most_once(
    m: Map<(u64, u64), u64>,
    requester: u64,
    code: u64,
    now1: u64,
    now2: u64,
)
    requires
        redeem_ok(m, requester, code, now1),
    ensures
        !redeem_ok(redeem_post(m, requester, code, now1), requester, code, now2),
        redeem_post(redeem_post(m, requester, code, now1), requester, code, now2)
            == redeem_post(m, requester, code, now1),
{
}

/// No code, no redemption: with no entry for the key, redemption fails and
/// creates nothing.
pub proof fn lemma_no_code_no_redemption(
    m: Map<(u64, u64), u64>,
    requester: u64,
    code: u64,
    now: u64,
)
    requires
        !m.dom().contains((requester, code)),
    ensures
        !redeem_ok(m, requester, code, now),
        redeem_post(m, requester, code, now) == m,
{
}

/// Isolation across requesters: a code issued to one requester never redeems
/// for another, whatever its numeric value, and the other's attempt changes
/// nothing.
pub proof fn lemma_requester_isolation(
    m: Map<(u64, u64), u64>,
    r1: u64,
    r2: u64,
    code: u64,
    t: u64,
    now: u64,
)
    requires
        r1 != r2,
        !m.dom().contains((r2, code)),
    ensures
        !redeem_ok(m.insert((r1, code), t), r2, code, now),
        redeem_post(m.insert((r1, code), t), r2, code, now) == m.insert((r1, code), t),
{
}

/// Expiry boundary: a code issued at `t` still redeems exactly at the end of
/// the validity window; one second past it, redemption fails and the failing
/// attempt sweeps the entry out of the store.
pub proof fn lemma_expiry_boundary(
    m: Map<(u64, u64), u64>,
    requester: u64,
    code: u64,
    t: u64,
    now: u64,
)
    ensures
        now == t + TTL_SECS ==> redeem_ok(m.insert((requester, code), t), requester, code, now),
        now > t + TTL_SECS ==> !redeem_ok(m.insert((requester, code), t), requester, code, now),
        now > t + TTL_SECS ==> !redeem_post(
            m.insert((requester, code), t),
            requester,
            code,
            now,
        ).dom().contains((requester, code)),
{
}

/// Re-issuing: after a further code is issued to the same requester, the
/// newer code is live and redeemable until it expires. (An earlier unexpired
/// code of the same requester stays live too: entries are keyed by requester
/// and code value together.)
pub proof fn lemma_reissue_keeps_new_code(
    m: Map<(u64, u64), u64>,
    requester: u64,
    c1: u64,
    c2: u64,
    t1: u64,
    t2: u64,
    now: u64,
)
    requires
        !is_expired(t2, now),
    ensures
        redeem_ok(
            m.insert((requester, c1), t1).insert((requester, c2), t2),
            requester,
            c2,
            now,
        ),
{
}

/// Sweep correctness: sweeping keeps exactly the unexpired entries, each with
/// its timestamp unchanged; of N entries of which M are expired, N - M
/// remain.
pub proof fn lemma_sweep_counts(m: Map<(u64, u64), u64>, now: u64)
    requires
        m.dom().finite(),
    ensures
        forall|k: (u64, u64)|
            #[trigger] swept(m, now).dom().contains(k) == (m.dom().contains(k)
                && !is_expired(m[k], now)),
        forall|k: (u64, u64)|
            swept(m, now).dom().contains(k) ==> #[trigger] swept(m, now)[k] == m[k],
        swept(m, now).dom().finite(),
        swept(m, now).dom().len() == m.dom().len() - m.dom().filter(
            |k: (u64, u64)| is_expired(m[k], now),
        ).len(),
{
    let live = m.dom().filter(|k: (u64, u64)| !is_expired(m[k], now));
    let dead = m.dom().filter(|k: (u64, u64)| is_expired(m[k], now));
    m.dom().lemma_len_filter(|k: (u64, u64)| !is_expired(m[k], now));
    m.dom().lemma_len_filter(|k: (u64, u64)| is_expired(m[k], now));
    assert(swept(m, now).dom() =~= live);
    assert(live.disjoint(dead));
    assert(live.union(dead) =~= m.dom());
    lemma_set_disjoint_lens(live, dead);
    assert((live + dead).len() == live.len() + dead.len());
}

} // verus!
