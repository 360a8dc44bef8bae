//! Fixed one-second request windows per `(client, path)`.
use vstd::prelude::*;
use crate::text::{chars_of, str_eq, string_of};
use std::time::Instant;

verus! {

/// Length of a rate-limit window, in milliseconds.
pub const WINDOW_MS: u64 = 1000;

/// The counter and window start after one request at `now`, given the
/// counter and window start before it (none for a first request).
pub open spec fn step(prev: Option<(u64, u64)>, now: u64) -> (u64, u64) {
    match prev {
        None => (1, now),
        Some((count, start)) => if now >= start && now - start >= WINDOW_MS {
            (1, now)
        } else if count < u64::MAX {
            ((count + 1) as u64, start)
        } else {
            (count, start)
        },
    }
}

/// Whether the request that leaves the counter at `count` is served.
pub open spec fn admits(count: u64, limit: u64) -> bool {
    count <= limit
}

/// The verdicts on requests at `times`, in order, for one key.
pub open spec fn verdicts(prev: Option<(u64, u64)>, limit: u64, times: Seq<u64>) -> Seq<bool>
    decreases times.len(),
{
    if times.len() == 0 {
        Seq::empty()
    } else {
        let s = step(prev, times[0]);
        seq![admits(s.0, limit)] + verdicts(Some(s), limit, times.drop_first())
    }
}

/// Within one window the `k`-th further request leaves the counter `k`
/// higher than it was.
pub proof fn lemma_verdicts_in_window(count: u64, start: u64, limit: u64, times: Seq<u64>)
    requires
        count + times.len() < u64::MAX,
        forall|i: int| 0 <= i < times.len() ==> start <= #[trigger] times[i] && times[i] < start
            + WINDOW_MS,
    ensures
        verdicts(Some((count, start)), limit, times).len() == times.len(),
        forall|i: int|
            0 <= i < times.len() ==> #[trigger] verdicts(Some((count, start)), limit, times)[i]
                == (count + i + 1 <= limit),
    decreases times.len(),
{
    if times.len() > 0 {
        let rest = times.drop_first();
        assert forall|i: int| 0 <= i < rest.len() implies start <= #[trigger] rest[i] && rest[i]
            < start + WINDOW_MS by {
            assert(rest[i] == times[i + 1]);
        }
        lemma_verdicts_in_window((count + 1) as u64, start, limit, rest);
        let v = verdicts(Some((count, start)), limit, times);
        assert forall|i: int| 0 <= i < times.len() implies #[trigger] v[i] == (count + i + 1
            <= limit) by {
            if i > 0 {
                assert(v[i] == verdicts(Some(((count + 1) as u64, start)), limit, rest)[i - 1]);
            }
        }
    }
}

/// For limit `L`, of `L + 1` requests on one key that all fall within one
/// second of the first, the first `L` are served and the last is refused.
pub proof fn lemma_limit_window(limit: u64, times: Seq<u64>)
    requires
        limit < u64::MAX - 1,
        times.len() == limit + 1,
        forall|i: int| 0 <= i < times.len() ==> times[0] <= #[trigger] times[i] && times[i]
            < times[0] + WINDOW_MS,
    ensures
        forall|i: int| 0 <= i < limit ==> #[trigger] verdicts(None, limit, times)[i],
        !verdicts(None, limit, times)[limit as int],
{
    let rest = times.drop_first();
    assert forall|i: int| 0 <= i < rest.len() implies times[0] <= #[trigger] rest[i] && rest[i]
        < times[0] + WINDOW_MS by {
        assert(rest[i] == times[i + 1]);
    }
    lemma_verdicts_in_window(1, times[0], limit, rest);
    let v = verdicts(None, limit, times);
    assert forall|i: int| 0 <= i < limit implies #[trigger] v[i] by {
        if i > 0 {
            assert(v[i] == verdicts(Some((1, times[0])), limit, rest)[i - 1]);
        }
    }
    if limit > 0 {
        assert(v[limit as int] == verdicts(Some((1, times[0])), limit, rest)[limit - 1]);
    }
}

/// The first request a full second or more after the window start opens a
/// new window with a counter of one.
pub proof fn lemma_window_reset(count: u64, start: u64, now: u64)
    requires
        now >= start + WINDOW_MS,
    ensures
        step(Some((count, start)), now) == (1u64, now),
{
}

/// One counter: a client, a normalized path, the requests seen in the
/// current window and when it began (milliseconds).
pub struct RateEntry {
    pub client: String,
    pub path: String,
    pub count: u64,
    pub window_start: u64,
}

/// The request counters of every `(client, path)` seen so far.
pub struct RateLimiter {
    pub entries: Vec<RateEntry>,
}

impl RateLimiter {
    /// Each key has at most one entry.
    pub open spec fn wf(self) -> bool {
        forall|i: int, j: int|
            0 <= i < j < self.entries@.len() ==> !(#[trigger] self.entries@[i].client@
                == #[trigger] self.entries@[j].client@ && self.entries@[i].path@
                == self.entries@[j].path@)
    }

    pub open spec fn has_key(self, client: Seq<char>, path: Seq<char>) -> bool {
        exists|i: int|
            0 <= i < self.entries@.len() && (#[trigger] self.entries@[i]).client@ == client
                && self.entries@[i].path@ == path
    }

    /// The counter and window start of a key, if it has been seen.
    pub open spec fn get(self, client: Seq<char>, path: Seq<char>) -> Option<(u64, u64)> {
        if self.has_key(client, path) {
            let i = choose|i: int|
                0 <= i < self.entries@.len() && (#[trigger] self.entries@[i]).client@ == client
                    && self.entries@[i].path@ == path;
            Some((self.entries@[i].count, self.entries@[i].window_start))
        } else {
            None
        }
    }

    pub fn new() -> (r: RateLimiter)
        ensures
            r.wf(),
            forall|c: Seq<char>, p: Seq<char>| r.get(c, p) is None,
    {
        RateLimiter { entries: Vec::new() }
    }

    /// Counts one request of `client` on `path` at `now` and says whether it
    /// is within `limit`.
    pub fn hit(&mut self, client: &str, path: &str, limit: u64, now: u64) -> (allowed: bool)
        requires
            old(self).wf(),
        ensures
            final(self).wf(),
            final(self).get(client@, path@) == Some(step(old(self).get(client@, path@), now)),
            allowed == admits(step(old(self).get(client@, path@), now).0, limit),
            forall|c: Seq<char>, p: Seq<char>|
                !(c == client@ && p == path@) ==> #[trigger] final(self).get(c, p) == old(
                    self,
                ).get(c, p),
    {
        let mut i: usize = 0;
        while i < self.entries.len()
            invariant
                i <= self.entries@.len(),
                forall|k: int|
                    0 <= k < i ==> !((#[trigger] self.entries@[k]).client@ == client@
                        && self.entries@[k].path@ == path@),
            ensures
                i <= self.entries@.len(),
                forall|k: int|
                    0 <= k < i ==> !((#[trigger] self.entries@[k]).client@ == client@
                        && self.entries@[k].path@ == path@),
                i < self.entries@.len() ==> self.entries@[i as int].client@ == client@
                    && self.entries@[i as int].path@ == path@,
            decreases self.entries@.len() - i,
        {
            if str_eq(self.entries[i].client.as_str(), client) && str_eq(
                self.entries[i].path.as_str(),
                path,
            ) {
                break;
            }
            i += 1;
        }
        let ghost old_self = *self;
        if i == self.entries.len() {
            let c = string_of(&chars_of(client));
            let p = string_of(&chars_of(path));
            self.entries.push(RateEntry { client: c, path: p, count: 1, window_start: now });
            proof {
                assert(!old_self.has_key(client@, path@));
                let n = old_self.entries@.len() as int;
                assert(self.entries@[n].client@ == client@);
                assert(self.has_key(client@, path@));
                assert forall|c: Seq<char>, p: Seq<char>|
                    !(c == client@ && p == path@) implies #[trigger] self.get(c, p)
                    == old_self.get(c, p) by {
                    if old_self.has_key(c, p) {
                        let j = choose|j: int|
                            0 <= j < old_self.entries@.len() && (#[trigger] old_self.entries@[
                                j
                            ]).client@ == c && old_self.entries@[j].path@ == p;
                        assert(self.entries@[j] == old_self.entries@[j]);
                        assert(self.has_key(c, p));
                    }
                    if self.has_key(c, p) {
                        let j = choose|j: int|
                            0 <= j < self.entries@.len() && (#[trigger] self.entries@[j]).client@
                                == c && self.entries@[j].path@ == p;
                        assert(j != n);
                        assert(old_self.entries@[j] == self.entries@[j]);
                    }
                }
            }
            let allowed = 1 <= limit;
            return allowed;
        }
        proof {
            assert(self.has_key(client@, path@));
            let k = choose|k: int|
                0 <= k < self.entries@.len() && (#[trigger] self.entries@[k]).client@ == client@
                    && self.entries@[k].path@ == path@;
            assert(k == i);
        }
        let count = self.entries[i].count;
        let start = self.entries[i].window_start;
        let (new_count, new_start) = if now >= start && now - start >= WINDOW_MS {
            (1u64, now)
        } else if count < u64::MAX {
            (count + 1, start)
        } else {
            (count, start)
        };
        let c = string_of(&chars_of(client));
        let p = string_of(&chars_of(path));
        let e = RateEntry { client: c, path: p, count: new_count, window_start: new_start };
        self.entries.set(i, e);
        proof {
            assert(self.entries@[i as int].client@ == client@);
            assert(self.has_key(client@, path@));
            let k = choose|k: int|
                0 <= k < self.entries@.len() && (#[trigger] self.entries@[k]).client@ == client@
                    && self.entries@[k].path@ == path@;
            assert(k == i);
            assert forall|c: Seq<char>, p: Seq<char>|
                !(c == client@ && p == path@) implies #[trigger] self.get(c, p) == old_self.get(
                c,
                p,
            ) by {
                if old_self.has_key(c, p) {
                    let j = choose|j: int|
                        0 <= j < old_self.entries@.len() && (#[trigger] old_self.entries@[
                            j
                        ]).client@ == c && old_self.entries@[j].path@ == p;
                    assert(j != i);
                    assert(self.entries@[j] == old_self.entries@[j]);
                    assert(self.has_key(c, p));
                }
                if self.has_key(c, p) {
                    let j = choose|j: int|
                        0 <= j < self.entries@.len() && (#[trigger] self.entries@[j]).client@ == c
                            && self.entries@[j].path@ == p;
                    assert(j != i);
                    assert(old_self.entries@[j] == self.entries@[j]);
                }
            }
        }
        new_count <= limit
    }
}

/// Opaque monotonic clock readings.
#[verifier::external_type_specification]
#[verifier::external_body]
pub struct ExInstant(Instant);

/// Relies on `Instant::now`: a reading of the monotonic clock.
#[verifier::external_body]
fn clock_now() -> Instant {
    Instant::now()
}

/// Relies on `Instant::elapsed`: milliseconds since `origin`, whatever the
/// clock says.
#[verifier::external_body]
fn millis_since(origin: &Instant) -> u64 {
    origin.elapsed().as_millis() as u64
}

/// Counters together with the clock reading their times count from.
pub struct Limiter {
    pub counters: RateLimiter,
    pub origin: Instant,
}

impl Limiter {
    pub open spec fn wf(self) -> bool {
        self.counters.wf()
    }

    pub fn new() -> (r: Limiter)
        ensures
            r.wf(),
            forall|c: Seq<char>, p: Seq<char>| r.counters.get(c, p) is None,
    {
        Limiter { counters: RateLimiter::new(), origin: clock_now() }
    }

    /// Counts a request of `client` on `path` now; whatever the clock reads,
    /// the key moves one step at that time and the verdict is that step's.
    pub fn hit_now(&mut self, client: &str, path: &str, limit: u64) -> (allowed: bool)
        requires
            old(self).wf(),
        ensures
            final(self).wf(),
            exists|now: u64|
                {
                    &&& #[trigger] final(self).counters.get(client@, path@) == Some(
                        step(old(self).counters.get(client@, path@), now),
                    )
                    &&& allowed == admits(
                        step(old(self).counters.get(client@, path@), now).0,
                        limit,
                    )
                },
            forall|c: Seq<char>, p: Seq<char>|
                !(c == client@ && p == path@) ==> #[trigger] final(self).counters.get(c, p)
                    == old(self).counters.get(c, p),
    {
        let now = millis_since(&self.origin);
        let allowed = self.counters.hit(client, path, limit, now);
        allowed
    }
}

/// `s` without its trailing `/` characters.
pub open spec fn strip_end_slashes(s: Seq<char>) -> Seq<char>
    decreases s.len(),
{
    if s.len() > 0 && s.last() == '/' {
        strip_end_slashes(s.drop_last())
    } else {
        s
    }
}

/// The counter key for a path: `/` stays, any other path loses its
/// trailing slashes.
pub open spec fn counter_path(s: Seq<char>) -> Seq<char> {
    if s == seq!['/'] {
        s
    } else {
        strip_end_slashes(s)
    }
}

/// The key under which requests on `p` are counted.
pub fn normalize_path(p: &str) -> (r: String)
    ensures
        r@ == counter_path(p@),
{
    let mut v = chars_of(p);
    if v.len() == 1 && v[0] == '/' {
        assert(v@ =~= seq!['/']);
        return string_of(&v);
    }
    assert(v@ != seq!['/'] ==> counter_path(v@) == strip_end_slashes(v@));
    let ghost full = v@;
    while v.len() > 0 && v[v.len() - 1] == '/'
        invariant
            strip_end_slashes(v@) == strip_end_slashes(full),
        decreases v@.len(),
    {
        v.pop();
    }
    string_of(&v)
}

/// Counts a request of `ip` on `path` and says whether it is within
/// `limit` requests in the current one-second window of that key.
pub fn check_allow(limiter: &mut Limiter, ip: &str, path: &str, limit: usize) -> (allowed: bool)
    requires
        old(limiter).wf(),
    ensures
        final(limiter).wf(),
        exists|now: u64|
            {
                &&& #[trigger] final(limiter).counters.get(ip@, counter_path(path@)) == Some(
                    step(old(limiter).counters.get(ip@, counter_path(path@)), now),
                )
                &&& allowed == admits(
                    step(old(limiter).counters.get(ip@, counter_path(path@)), now).0,
                    limit as u64,
                )
            },
        forall|c: Seq<char>, p: Seq<char>|
            !(c == ip@ && p == counter_path(path@)) ==> #[trigger] final(limiter).counters.get(c, p)
                == old(limiter).counters.get(c, p),
{
    let key = normalize_path(path);
    limiter.hit_now(ip, key.as_str(), limit as u64)
}

} // verus!
