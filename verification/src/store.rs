use vstd::prelude::*;

use crate::is_expired;
use crate::expired;
use crate::MAX_CODE;

verus! {

/// Backing table for the code store: a hash map from (requester id, code
/// value) to the issuance timestamp in seconds. The map itself comes from an
/// outside crate, so it is held opaquely and spoken of only through
/// `entries_of` and the trusted wrappers below.
#[verifier::external_body]
struct CodeMap {
    map: hashbrown::HashMap<(u64, u64), u64>,
}

/// The entries the backing table currently holds, as a mathematical map.
pub uninterp spec fn entries_of(m: CodeMap) -> Map<(u64, u64), u64>;

/// The map that holds no entries.
pub open spec fn no_entries() -> Map<(u64, u64), u64> {
    Map::empty()
}

/// Relies on hashbrown::HashMap::new: a freshly created map is empty.
#[verifier::external_body]
fn code_map_new() -> (r: CodeMap)
    ensures
        entries_of(r) == no_entries(),
{
    CodeMap { map: hashbrown::HashMap::new() }
}

/// Relies on hashbrown::HashMap::get: returns the value stored under the key,
/// or None when the key is absent.
#[verifier::external_body]
fn code_map_get(m: &CodeMap, k: (u64, u64)) -> (r: Option<u64>)
    ensures
        r == (if entries_of(*m).dom().contains(k) {
            Some(entries_of(*m)[k])
        } else {
            None::<u64>
        }),
{
    m.map.get(&k).copied()
}

/// Relies on hashbrown::HashMap::insert: stores the value under the key,
/// overwriting any prior value for the same key.
#[verifier::external_body]
fn code_map_insert(m: &mut CodeMap, k: (u64, u64), v: u64)
    ensures
        entries_of(*final(m)) == entries_of(*old(m)).insert(k, v),
{
    m.map.insert(k, v);
}

/// Relies on hashbrown::HashMap::remove: removes the entry under the key, if
/// any; other entries are untouched.
#[verifier::external_body]
fn code_map_remove(m: &mut CodeMap, k: (u64, u64))
    ensures
        entries_of(*final(m)) == entries_of(*old(m)).remove(k),
{
    m.map.remove(&k);
}

/// Relies on hashbrown::HashMap::iter: visits every entry exactly once, in no
/// promised order, and the map holds finitely many entries (at most its len).
#[verifier::external_body]
fn code_map_pairs(m: &CodeMap) -> (r: Vec<((u64, u64), u64)>)
    ensures
        forall|i: int| 0 <= i < r@.len() ==> entries_of(*m).contains_pair(r@[i].0, r@[i].1),
        forall|i: int, j: int| 0 <= i < j < r@.len() ==> r@[i].0 != r@[j].0,
        forall|k: (u64, u64)|
            entries_of(*m).dom().contains(k) ==> exists|i: int| 0 <= i < r@.len() && r@[i].0 == k,
{
    m.map.iter().map(|(k, v)| (*k, *v)).collect()
}

/// The entries that survive a sweep at time `now`: every unexpired entry of
/// `m`, with its timestamp unchanged; every expired entry is gone.
pub open spec fn swept(m: Map<(u64, u64), u64>, now: u64) -> Map<(u64, u64), u64> {
    Map::new(
        |k: (u64, u64)| m.dom().contains(k) && !is_expired(m[k], now),
        |k: (u64, u64)| m[k],
    )
}

/// Whether redeeming (requester, code) at time `now` succeeds against the
/// entries `m`: the key must be present and not yet expired.
pub open spec fn redeem_ok(m: Map<(u64, u64), u64>, requester: u64, code: u64, now: u64) -> bool {
    m.dom().contains((requester, code)) && !is_expired(m[(requester, code)], now)
}

/// The entries left after redeeming (requester, code) at time `now` against
/// `m`: an absent key changes nothing; an expired entry triggers a full sweep;
/// a live entry is consumed.
pub open spec fn redeem_post(
    m: Map<(u64, u64), u64>,
    requester: u64,
    code: u64,
    now: u64,
) -> Map<(u64, u64), u64> {
    if !m.dom().contains((requester, code)) {
        m
    } else if is_expired(m[(requester, code)], now) {
        swept(m, now)
    } else {
        m.remove((requester, code))
    }
}

/// The store of live verification codes: the sole arbiter of whether a
/// (requester, code) pair is currently redeemable. Its view is the map from
/// (requester id, code value) to issuance time in seconds.
pub struct CodeStore {
    codes: CodeMap,
}

impl View for CodeStore {
    type V = Map<(u64, u64), u64>;

    closed spec fn view(&self) -> Map<(u64, u64), u64> {
        entries_of(self.codes)
    }
}

/// Whether the key `k` occurs among the first `n` pairs of `s`.
spec fn key_in_prefix(s: Seq<((u64, u64), u64)>, n: int, k: (u64, u64)) -> bool {
    exists|j: int| 0 <= j < n && s[j].0 == k
}

/// A listing whose pairs all lie in `m`, with distinct keys, and which reaches
/// every key of `m`, has exactly one pair per entry: so `m`'s domain is finite
/// and the listing's length is its cardinality.
proof fn lemma_pairs_card(pairs: Seq<((u64, u64), u64)>, m: Map<(u64, u64), u64>)
    requires
        forall|i: int| 0 <= i < pairs.len() ==> m.contains_pair(pairs[i].0, pairs[i].1),
        forall|i: int, j: int| 0 <= i < j < pairs.len() ==> pairs[i].0 != pairs[j].0,
        forall|k: (u64, u64)|
            m.dom().contains(k) ==> exists|i: int| 0 <= i < pairs.len() && pairs[i].0 == k,
    ensures
        m.dom().finite(),
        m.dom().len() == pairs.len(),
{
    broadcast use vstd::seq_lib::seq_to_set_is_finite;

    let keys = pairs.map_values(|p: ((u64, u64), u64)| p.0);
    assert forall|i: int, j: int| 0 <= i < keys.len() && 0 <= j < keys.len() && i != j
        implies keys[i] != keys[j] by {
        if i < j {
            assert(pairs[i].0 != pairs[j].0);
        } else {
            assert(pairs[j].0 != pairs[i].0);
        }
    }
    keys.unique_seq_to_set();
    assert forall|k: (u64, u64)| m.dom().contains(k) implies keys.to_set().contains(k) by {
        let i = choose|i: int| 0 <= i < pairs.len() && pairs[i].0 == k;
        assert(keys[i] == k);
    }
    assert forall|k: (u64, u64)| keys.to_set().contains(k) implies m.dom().contains(k) by {
        let i = choose|i: int| 0 <= i < keys.len() && keys[i] == k;
        assert(m.contains_pair(pairs[i].0, pairs[i].1));
    }
    assert(m.dom() =~= keys.to_set());
}

impl CodeStore {
    /// A new store holds no codes.
    pub fn new() -> (s: CodeStore)
        ensures
            s@ == Map::<(u64, u64), u64>::empty(),
    {
        CodeStore { codes: code_map_new() }
    }

    /// Records that `code` was issued to `requester` at time `now`,
    /// overwriting any earlier issuance of the same code to the same
    /// requester. Always succeeds.
    pub fn issue_code(&mut self, requester: u64, code: u64, now: u64)
        requires
            code <= MAX_CODE,
        ensures
            final(self)@ == old(self)@.insert((requester, code), now),
    {
        code_map_insert(&mut self.codes, (requester, code), now);
    }

    /// Removes every expired entry; unexpired entries survive with their
    /// timestamps unchanged.
    pub fn clean_codes(&mut self, now: u64)
        ensures
            final(self)@ == swept(old(self)@, now),
    {
        let ghost m0 = self@;
        let pairs = code_map_pairs(&self.codes);
        let mut i: usize = 0;
        while i < pairs.len()
            invariant
                0 <= i <= pairs@.len(),
                forall|j: int| 0 <= j < pairs@.len() ==> m0.contains_pair(pairs@[j].0, pairs@[j].1),
                forall|k: (u64, u64)|
                    m0.dom().contains(k) ==> key_in_prefix(pairs@, pairs@.len() as int, k),
                entries_of(self.codes) == Map::new(
                    |k: (u64, u64)| m0.dom().contains(k)
                        && !(is_expired(m0[k], now) && key_in_prefix(pairs@, i as int, k)),
                    |k: (u64, u64)| m0[k],
                ),
            decreases pairs@.len() - i,
        {
            let (k, ts) = pairs[i];
            if expired(ts, now) {
                code_map_remove(&mut self.codes, k);
            }
            proof {
                let target = Map::new(
                    |kk: (u64, u64)| m0.dom().contains(kk)
                        && !(is_expired(m0[kk], now) && key_in_prefix(pairs@, i + 1, kk)),
                    |kk: (u64, u64)| m0[kk],
                );
                assert forall|kk: (u64, u64)|
                    key_in_prefix(pairs@, i + 1, kk) == (key_in_prefix(pairs@, i as int, kk)
                        || pairs@[i as int].0 == kk) by {
                    if key_in_prefix(pairs@, i + 1, kk) {
                        let j = choose|j: int| 0 <= j < i + 1 && pairs@[j].0 == kk;
                        if j < i {
                            assert(key_in_prefix(pairs@, i as int, kk));
                        }
                    }
                }
                assert(entries_of(self.codes) =~= target);
            }
            i = i + 1;
        }
        proof {
            assert(entries_of(self.codes) =~= swept(m0, now));
        }
    }

    /// Attempts to redeem `code` for `requester` at time `now`. Returns true
    /// exactly when a live (unexpired) entry for that key existed, consuming
    /// it; an expired entry is never redeemed and instead triggers a full
    /// sweep; an absent key changes nothing.
    pub fn check_code(&mut self, requester: u64, code: u64, now: u64) -> (r: bool)
        ensures
            r == redeem_ok(old(self)@, requester, code, now),
            final(self)@ == redeem_post(old(self)@, requester, code, now),
    {
        let k = (requester, code);
        match code_map_get(&self.codes, k) {
            Some(ts) => {
                if expired(ts, now) {
                    self.clean_codes(now);
                    false
                } else {
                    code_map_remove(&mut self.codes, k);
                    true
                }
            },
            None => false,
        }
    }

    /// Read-only listing of every live entry as (requester, code, issued-at),
    /// each entry exactly once, in no promised order.
    pub fn dump_codes(&self) -> (r: Vec<(u64, u64, u64)>)
        ensures
            self@.dom().finite(),
            r@.len() == self@.dom().len(),
            forall|i: int| 0 <= i < r@.len()
                ==> self@.contains_pair((r@[i].0, r@[i].1), r@[i].2),
            forall|i: int, j: int| 0 <= i < j < r@.len()
                ==> (r@[i].0, r@[i].1) != (r@[j].0, r@[j].1),
            forall|rq: u64, c: u64|
                self@.dom().contains((rq, c))
                    ==> exists|i: int| 0 <= i < r@.len() && r@[i].0 == rq && r@[i].1 == c,
    {
        let pairs = code_map_pairs(&self.codes);
        proof {
            lemma_pairs_card(pairs@, entries_of(self.codes));
        }
        let mut out: Vec<(u64, u64, u64)> = Vec::new();
        let mut i: usize = 0;
        while i < pairs.len()
            invariant
                0 <= i <= pairs@.len(),
                out@.len() == i,
                forall|j: int| 0 <= j < pairs@.len()
                    ==> entries_of(self.codes).contains_pair(pairs@[j].0, pairs@[j].1),
                forall|j1: int, j2: int| 0 <= j1 < j2 < pairs@.len()
                    ==> pairs@[j1].0 != pairs@[j2].0,
                forall|j: int| 0 <= j < i
                    ==> out@[j] == (pairs@[j].0.0, pairs@[j].0.1, pairs@[j].1),
            decreases pairs@.len() - i,
        {
            let (k, ts) = pairs[i];
            out.push((k.0, k.1, ts));
            i = i + 1;
        }
        proof {
            assert forall|rq: u64, c: u64| self@.dom().contains((rq, c))
                implies exists|j: int| 0 <= j < out@.len() && out@[j].0 == rq && out@[j].1 == c by {
                let j = choose|j: int| 0 <= j < pairs@.len() && pairs@[j].0 == (rq, c);
                assert(out@[j].0 == rq && out@[j].1 == c);
            }
        }
        out
    }
}

} // verus!
