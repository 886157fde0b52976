//! The login-attempt rate limiter: a fixed counting window per client
//! identity. Every call increments the client's counter; once the count for
//! the current window exceeds the configured ceiling the call is refused,
//! and the counter resets when the window boundary is crossed. All mutation
//! of a client's counter goes through one `&mut` entry point, so no
//! increment can be lost to a race within a single process.

use vstd::prelude::*;
use crate::errors::StoreError;

verus! {

/// One client's counter: attempts seen since `window_start`.
#[derive(Debug, Clone, Copy, PartialEq, Eq, Structural)]
pub struct RateEntry {
    pub client: u64,
    pub count: u64,
    pub window_start: u64,
}

/// All per-client counters plus the policy constants: at most `ceiling`
/// attempts per `window` ticks.
#[derive(Debug)]
pub struct RateLimiter {
    pub entries: Vec<RateEntry>,
    pub ceiling: u64,
    pub window: u64,
}

/// Whether some counter is kept for this client.
pub open spec fn has_client(es: Seq<RateEntry>, client: u64) -> bool {
    exists|i: int| 0 <= i < es.len() && es[i].client == client
}

/// The index of this client's counter (meaningful when one exists and
/// clients are unique).
pub open spec fn client_index(es: Seq<RateEntry>, client: u64) -> int {
    choose|i: int| 0 <= i < es.len() && es[i].client == client
}

/// The counter kept for this client.
pub open spec fn stored_entry(es: Seq<RateEntry>, client: u64) -> RateEntry {
    es[client_index(es, client)]
}

/// Exactly one counter per client.
pub open spec fn clients_unique(es: Seq<RateEntry>) -> bool {
    forall|i: int, j: int| 0 <= i < j < es.len() ==> es[i].client != es[j].client
}

/// Whether a call at `now` falls inside the counter's current window.
pub open spec fn in_window(e: RateEntry, window: u64, now: u64) -> bool {
    now < e.window_start + window
}

/// The counter value this call counts as: one more than the current count
/// inside a live window (saturating at the largest representable count),
/// or the first attempt of a fresh window.
pub open spec fn spec_check_count(es: Seq<RateEntry>, window: u64, client: u64, now: u64) -> u64 {
    if has_client(es, client) && in_window(stored_entry(es, client), window, now) {
        if stored_entry(es, client).count < u64::MAX {
            (stored_entry(es, client).count + 1) as u64
        } else {
            stored_entry(es, client).count
        }
    } else {
        1
    }
}

/// The counter record this call leaves for the client.
pub open spec fn spec_check_entry(es: Seq<RateEntry>, window: u64, client: u64, now: u64) -> RateEntry {
    RateEntry {
        client,
        count: spec_check_count(es, window, client, now),
        window_start: if has_client(es, client) && in_window(stored_entry(es, client), window, now) {
            stored_entry(es, client).window_start
        } else {
            now
        },
    }
}

/// Whether this call is admitted: the count it counts as stays at or under
/// the ceiling.
pub open spec fn spec_check_allowed(
    es: Seq<RateEntry>,
    ceiling: u64,
    window: u64,
    client: u64,
    now: u64,
) -> bool {
    spec_check_count(es, window, client, now) <= ceiling
}

/// Limiter state after a call: the client's counter replaced (or added),
/// every other client untouched.
pub open spec fn spec_check_state(es: Seq<RateEntry>, window: u64, client: u64, now: u64) -> Seq<
    RateEntry,
> {
    if has_client(es, client) {
        es.update(client_index(es, client), spec_check_entry(es, window, client, now))
    } else {
        es.push(spec_check_entry(es, window, client, now))
    }
}

impl RateLimiter {
    /// The limiter's invariant: one counter per client.
    pub open spec fn wf(self) -> bool {
        clients_unique(self.entries@)
    }

    /// A limiter with no counters and the given policy constants.
    pub fn new(ceiling: u64, window: u64) -> (r: RateLimiter)
        ensures
            r.wf(),
            r.entries@.len() == 0,
            r.ceiling == ceiling,
            r.window == window,
    {
        RateLimiter { entries: Vec::new(), ceiling, window }
    }

    /// Finds the position of this client's counter, if any.
    fn find_client(&self, client: u64) -> (r: Option<usize>)
        ensures
            match r {
                Some(i) => i < self.entries@.len() && self.entries@[i as int].client == client,
                None => !has_client(self.entries@, client),
            },
    {
        let mut i: usize = 0;
        while i < self.entries.len()
            invariant
                i <= self.entries@.len(),
                forall|j: int| 0 <= j < i ==> self.entries@[j].client != client,
            decreases self.entries@.len() - i,
        {
            if self.entries[i].client == client {
                return Some(i);
            }
            i += 1;
        }
        None
    }

    /// Counts one attempt for `client` at `now` and admits it exactly when
    /// the count within the current window stays at or under the ceiling;
    /// otherwise refuses it as rate-limited. Crossing the window boundary
    /// resets the counter to a fresh window starting at `now`.
    pub fn check(&mut self, client: u64, now: u64) -> (r: Result<(), StoreError>)
        requires
            old(self).wf(),
        ensures
            final(self).wf(),
            final(self).ceiling == old(self).ceiling,
            final(self).window == old(self).window,
            final(self).entries@ == spec_check_state(
                old(self).entries@,
                old(self).window,
                client,
                now,
            ),
            r is Ok <==> spec_check_allowed(
                old(self).entries@,
                old(self).ceiling,
                old(self).window,
                client,
                now,
            ),
            r matches Err(e) ==> e == StoreError::RateLimited,
    {
        let count: u64;
        match self.find_client(client) {
            Some(i) => {
                proof {
                    lemma_client_index_agrees(self.entries@, client, i as int);
                }
                let e = self.entries.remove(i);
                let inside = if now >= e.window_start {
                    now - e.window_start < self.window
                } else {
                    true
                };
                let ne = if inside {
                    count = if e.count < u64::MAX {
                        e.count + 1
                    } else {
                        e.count
                    };
                    RateEntry { client, count, window_start: e.window_start }
                } else {
                    count = 1;
                    RateEntry { client, count: 1, window_start: now }
                };
                self.entries.insert(i, ne);
                proof {
                    let k = client_index(old(self).entries@, client);
                    let se = spec_check_entry(old(self).entries@, old(self).window, client, now);
                    assert(final(self).entries@ =~= old(self).entries@.update(k, se));
                    lemma_entry_update_keeps_unique(old(self).entries@, k, se);
                }
            },
            None => {
                count = 1;
                self.entries.push(RateEntry { client, count: 1, window_start: now });
                proof {
                    let es = final(self).entries@;
                    let n = old(self).entries@.len() as int;
                    assert(forall|i: int| 0 <= i < n ==> es[i] == old(self).entries@[i]);
                }
            },
        }
        if count <= self.ceiling {
            Ok(())
        } else {
            Err(StoreError::RateLimited)
        }
    }
}

/// With unique clients, any position holding `client` is the
/// `client_index`.
proof fn lemma_client_index_agrees(es: Seq<RateEntry>, client: u64, i: int)
    requires
        clients_unique(es),
        0 <= i < es.len(),
        es[i].client == client,
    ensures
        client_index(es, client) == i,
        stored_entry(es, client) == es[i],
        has_client(es, client),
{
    let k = client_index(es, client);
    assert(0 <= k < es.len() && es[k].client == client);
    if k < i {
        assert(es[k].client != es[i].client);
    } else if i < k {
        assert(es[i].client != es[k].client);
    }
}

/// Replacing a counter with one of the same client keeps clients unique.
proof fn lemma_entry_update_keeps_unique(es: Seq<RateEntry>, k: int, ne: RateEntry)
    requires
        clients_unique(es),
        0 <= k < es.len(),
        ne.client == es[k].client,
    ensures
        clients_unique(es.update(k, ne)),
{
    let q = es.update(k, ne);
    assert forall|i: int, j: int| 0 <= i < j < q.len() implies q[i].client != q[j].client by {
        assert(q[i].client == es[i].client);
        assert(q[j].client == es[j].client);
    }
}

/// Once a client's counter has reached the ceiling inside the current
/// window, a further attempt in that window is refused, and the counter it
/// leaves is again at or above the ceiling — so every later attempt in the
/// same window is refused too. Once the window boundary is crossed, the
/// counter resets and an attempt is admitted again (whenever the policy
/// admits at least one attempt per window).
pub proof fn lemma_rate_limit_window(
    es: Seq<RateEntry>,
    ceiling: u64,
    window: u64,
    client: u64,
    now: u64,
    later: u64,
)
    requires
        clients_unique(es),
        has_client(es, client),
        ceiling < u64::MAX,
    ensures
        in_window(stored_entry(es, client), window, now) && stored_entry(es, client).count
            >= ceiling ==> {
            let es2 = spec_check_state(es, window, client, now);
            &&& !spec_check_allowed(es, ceiling, window, client, now)
            &&& has_client(es2, client)
            &&& stored_entry(es2, client).count >= ceiling
            &&& stored_entry(es2, client).window_start == stored_entry(es, client).window_start
        },
        later >= stored_entry(es, client).window_start + window && ceiling >= 1
            ==> spec_check_allowed(es, ceiling, window, client, later),
{
    let k = client_index(es, client);
    assert(0 <= k < es.len() && es[k].client == client);
    if in_window(stored_entry(es, client), window, now) && stored_entry(es, client).count
        >= ceiling {
        let se = spec_check_entry(es, window, client, now);
        let es2 = spec_check_state(es, window, client, now);
        assert(es2 == es.update(k, se));
        assert(es2[k] == se);
        assert(has_client(es2, client));
        lemma_client_index_agrees2(es, k, se, client);
    }
}

/// After replacing the counter at the index of `client` with one for the
/// same client, that index is still the one `client_index` picks.
proof fn lemma_client_index_agrees2(es: Seq<RateEntry>, k: int, ne: RateEntry, client: u64)
    requires
        clients_unique(es),
        0 <= k < es.len(),
        es[k].client == client,
        ne.client == client,
    ensures
        client_index(es.update(k, ne), client) == k,
        stored_entry(es.update(k, ne), client) == ne,
{
    let q = es.update(k, ne);
    assert(q[k].client == client);
    assert(has_client(q, client));
    let j = client_index(q, client);
    assert(0 <= j < q.len() && q[j].client == client);
    if j != k {
        assert(q[j] == es[j]);
        if j < k {
            assert(es[j].client != es[k].client);
        } else {
            assert(es[k].client != es[j].client);
        }
    }
}

} // verus!
