//! Authentication: the throttle on login and registration attempts, the
//! check of the token secret, token claims, reading the bearer token of a
//! request, and password hashing.
use vstd::prelude::*;
use crate::error::Failure;
use crate::models::{NewUser, User};
use crate::text::{
    chars_of, find_char, first_index, has_prefix, lemma_first_index_bounds, range_eq, starts_with,
    trim, trim_bounds, trimmed,
};
use vstd::utf8::encode_utf8;

verus! {

/// What a signed token states about its holder.
pub struct Claims {
    pub sub: String,
    pub user_id: i32,
    pub role: String,
    pub exp: i64,
}

/// The caller of a request, as its token names it.
pub struct AuthUser {
    pub user_id: i32,
    pub role: String,
}

// ---------------------------------------------------------------------------
// Throttling of authentication attempts.

/// Length of the window in which attempts are counted, in nanoseconds.
pub const AUTH_WINDOW_NANOS: u64 = 60_000_000_000;

/// Attempts admitted per key within one window.
pub const AUTH_MAX_ATTEMPTS: usize = 10;

/// Whether an attempt made at `t` still counts at `now`.
pub open spec fn is_recent(t: u64, now: u64) -> bool {
    t as int > now as int - AUTH_WINDOW_NANOS as int
}

/// The attempts of `h` that still count at `now`, in their order.
pub open spec fn recent_attempts(h: Seq<u64>, now: u64) -> Seq<u64>
    decreases h.len(),
{
    if h.len() == 0 {
        h
    } else if is_recent(h.last(), now) {
        recent_attempts(h.drop_last(), now).push(h.last())
    } else {
        recent_attempts(h.drop_last(), now)
    }
}

/// One attempt at `now` against the history `h` of its key: whether it is
/// admitted, and the history that is kept afterwards.
pub open spec fn attempt_step(h: Seq<u64>, now: u64) -> (bool, Seq<u64>) {
    let kept = recent_attempts(h, now);
    if kept.len() < AUTH_MAX_ATTEMPTS {
        (true, kept.push(now))
    } else {
        (false, kept)
    }
}

/// Lower-case mapping of Unicode (`str::to_lowercase`).
pub uninterp spec fn lowercased(s: Seq<char>) -> Seq<char>;

/// Calls `str::to_lowercase`; its result is named `lowercased`.
#[verifier::external_body]
fn to_lowercase(s: &str) -> (r: String)
    ensures
        r@ == lowercased(s@),
{
    s.to_lowercase()
}

/// The attempts on record for one key.
pub struct AttemptLog {
    key: String,
    times: Vec<u64>,
}

/// The attempts on record per key, keys compared after lower-casing.
pub struct RateLimiter {
    logs: Vec<AttemptLog>,
}

impl RateLimiter {
    #[verifier::type_invariant]
    closed spec fn inv(self) -> bool {
        &&& forall|i: int, j: int|
            0 <= i < j < self.logs@.len() ==> #[trigger] self.logs@[i].key@
                != #[trigger] self.logs@[j].key@
        &&& forall|i: int|
            0 <= i < self.logs@.len() ==> #[trigger] self.logs@[i].times@.len()
                <= AUTH_MAX_ATTEMPTS
    }

    /// The attempts on record for `key` (a lower-cased key), oldest first.
    pub closed spec fn history(self, key: Seq<char>) -> Seq<u64> {
        if exists|i: int| 0 <= i < self.logs@.len() && #[trigger] self.logs@[i].key@ == key {
            let i = choose|i: int| 0 <= i < self.logs@.len() && #[trigger] self.logs@[i].key@ == key;
            self.logs@[i].times@
        } else {
            Seq::empty()
        }
    }

    /// A throttle with no attempts on record.
    pub fn new() -> (r: Self)
        ensures
            forall|k: Seq<char>| #[trigger] r.history(k) == Seq::<u64>::empty(),
    {
        RateLimiter { logs: Vec::new() }
    }

    proof fn lemma_history_at(self, i: int)
        requires
            self.inv(),
            0 <= i < self.logs@.len(),
        ensures
            self.history(self.logs@[i].key@) == self.logs@[i].times@,
    {
        let key = self.logs@[i].key@;
        let j = choose|j: int| 0 <= j < self.logs@.len() && #[trigger] self.logs@[j].key@ == key;
        if j != i {
            if j < i {
                assert(self.logs@[j].key@ != self.logs@[i].key@);
            } else {
                assert(self.logs@[i].key@ != self.logs@[j].key@);
            }
        }
    }
}

/// The attempts of `times` that still count at `now`.
fn prune(times: &Vec<u64>, now: u64) -> (r: Vec<u64>)
    ensures
        r@ == recent_attempts(times@, now),
        r@.len() <= times@.len(),
{
    let mut r: Vec<u64> = Vec::new();
    let mut i: usize = 0;
    while i < times.len()
        invariant
            i <= times@.len(),
            r@ == recent_attempts(times@.take(i as int), now),
            r@.len() <= i,
        decreases times.len() - i,
    {
        assert(times@.take(i + 1).drop_last() =~= times@.take(i as int));
        let t = times[i];
        if t > now || now - t < AUTH_WINDOW_NANOS {
            r.push(t);
        }
        i = i + 1;
    }
    assert(times@.take(times@.len() as int) =~= times@);
    r
}

/// The history of one key after the attempts at `times`, one by one, starting from `h`.
pub open spec fn history_after(h: Seq<u64>, times: Seq<u64>) -> Seq<u64>
    decreases times.len(),
{
    if times.len() == 0 {
        h
    } else {
        attempt_step(history_after(h, times.drop_last()), times.last()).1
    }
}

/// Whether the attempt at `times[i]` is admitted, the attempts before it
/// having been made on a key with no history.
pub open spec fn admitted_at(times: Seq<u64>, i: int) -> bool {
    attempt_step(history_after(Seq::empty(), times.take(i)), times[i]).0
}

/// The admitted ones among the first `n` attempts at `times`, in order.
pub open spec fn admitted_times(times: Seq<u64>, n: int) -> Seq<u64>
    decreases n,
{
    if n <= 0 {
        Seq::empty()
    } else if admitted_at(times, n - 1) {
        admitted_times(times, n - 1).push(times[n - 1])
    } else {
        admitted_times(times, n - 1)
    }
}

proof fn lemma_recent_len(h: Seq<u64>, now: u64)
    ensures
        recent_attempts(h, now).len() <= h.len(),
    decreases h.len(),
{
    if h.len() > 0 {
        lemma_recent_len(h.drop_last(), now);
    }
}

proof fn lemma_recent_twice(h: Seq<u64>, a: u64, b: u64)
    requires
        a <= b,
    ensures
        recent_attempts(recent_attempts(h, a), b) == recent_attempts(h, b),
    decreases h.len(),
{
    if h.len() > 0 {
        lemma_recent_twice(h.drop_last(), a, b);
        let r = recent_attempts(h.drop_last(), a);
        if is_recent(h.last(), a) {
            assert(r.push(h.last()).drop_last() =~= r);
        }
    }
}

proof fn lemma_history_tracks_admitted(times: Seq<u64>, n: int)
    requires
        1 <= n <= times.len(),
        forall|a: int, b: int| 0 <= a <= b < times.len() ==> times[a] <= times[b],
    ensures
        history_after(Seq::empty(), times.take(n)) == recent_attempts(
            admitted_times(times, n),
            times[n - 1],
        ),
        history_after(Seq::empty(), times.take(n)).len() <= AUTH_MAX_ATTEMPTS,
    decreases n,
{
    let t = times[n - 1];
    assert(times.take(n).drop_last() =~= times.take(n - 1));
    assert(times.take(n).last() == t);
    let prev = history_after(Seq::empty(), times.take(n - 1));
    if n == 1 {
        assert(times.take(0) =~= Seq::<u64>::empty());
        assert(recent_attempts(Seq::<u64>::empty(), t) =~= Seq::<u64>::empty());
        assert(admitted_times(times, 0) =~= Seq::<u64>::empty());
    } else {
        lemma_history_tracks_admitted(times, n - 1);
        lemma_recent_twice(admitted_times(times, n - 1), times[n - 2], t);
        lemma_recent_len(prev, t);
    }
    let kept = recent_attempts(prev, t);
    assert(kept == recent_attempts(admitted_times(times, n - 1), t));
    if admitted_at(times, n - 1) {
        let pushed = admitted_times(times, n - 1).push(t);
        assert(pushed.drop_last() =~= admitted_times(times, n - 1));
    }
}

/// The throttle's promise: however a key's attempts are timed (the clock
/// never running backwards), among the attempts up to any one of them, at
/// most `AUTH_MAX_ATTEMPTS` were admitted within the minute that ends with it.
pub proof fn lemma_at_most_max_attempts_per_window(times: Seq<u64>, j: int)
    requires
        0 <= j < times.len(),
        forall|a: int, b: int| 0 <= a <= b < times.len() ==> times[a] <= times[b],
    ensures
        recent_attempts(admitted_times(times, j + 1), times[j]).len() <= AUTH_MAX_ATTEMPTS,
{
    lemma_history_tracks_admitted(times, j + 1);
}

/// The answer of the throttle over a run of calls on one key: the attempt at
/// `times[j]` is admitted exactly when fewer than `AUTH_MAX_ATTEMPTS` of the
/// attempts admitted before it were made within the minute that ends at
/// `times[j]`. Refused attempts do not count, since `admitted_times` holds
/// only the admitted ones. (`allow_auth_attempt` takes each call through
/// `attempt_step` on the history of the lower-cased key, so `history_after`
/// is that history after the calls at `times`.)
pub proof fn lemma_answer_from_admitted(times: Seq<u64>, j: int)
    requires
        0 <= j < times.len(),
        forall|a: int, b: int| 0 <= a <= b < times.len() ==> times[a] <= times[b],
    ensures
        admitted_at(times, j) == (recent_attempts(admitted_times(times, j), times[j]).len()
            < AUTH_MAX_ATTEMPTS),
        admitted_times(times, j + 1) == (if admitted_at(times, j) {
            admitted_times(times, j).push(times[j])
        } else {
            admitted_times(times, j)
        }),
{
    if j == 0 {
        assert(times.take(0) =~= Seq::<u64>::empty());
        assert(recent_attempts(Seq::<u64>::empty(), times[0]) =~= Seq::<u64>::empty());
        assert(admitted_times(times, 0) =~= Seq::<u64>::empty());
    } else {
        lemma_history_tracks_admitted(times, j);
        lemma_recent_twice(admitted_times(times, j), times[j - 1], times[j]);
    }
}

/// The history of the (lower-cased) key `k` after the calls `calls`, each a
/// lower-cased key and a time, made on a throttle with no attempts on record.
pub open spec fn history_of_run(calls: Seq<(Seq<char>, u64)>, k: Seq<char>) -> Seq<u64>
    decreases calls.len(),
{
    if calls.len() == 0 {
        Seq::empty()
    } else {
        let prev = history_of_run(calls.drop_last(), k);
        if calls.last().0 == k {
            attempt_step(prev, calls.last().1).1
        } else {
            prev
        }
    }
}

/// The times of the calls of `calls` on the key `k`, in order.
pub open spec fn times_for(calls: Seq<(Seq<char>, u64)>, k: Seq<char>) -> Seq<u64>
    decreases calls.len(),
{
    if calls.len() == 0 {
        Seq::empty()
    } else if calls.last().0 == k {
        times_for(calls.drop_last(), k).push(calls.last().1)
    } else {
        times_for(calls.drop_last(), k)
    }
}

/// The answer to the call `calls[i]`, the calls before it having been made.
pub open spec fn run_answer(calls: Seq<(Seq<char>, u64)>, i: int) -> bool {
    attempt_step(history_of_run(calls.take(i), calls[i].0), calls[i].1).0
}

proof fn lemma_history_of_run_own_key(calls: Seq<(Seq<char>, u64)>, k: Seq<char>)
    ensures
        history_of_run(calls, k) == history_after(Seq::empty(), times_for(calls, k)),
    decreases calls.len(),
{
    if calls.len() > 0 {
        lemma_history_of_run_own_key(calls.drop_last(), k);
        if calls.last().0 == k {
            let ts = times_for(calls.drop_last(), k);
            assert(ts.push(calls.last().1).drop_last() =~= ts);
        }
    }
}

/// Attempts under one key never change another key's answers, however the
/// calls are interleaved: the answer to a call depends only on the earlier
/// calls on its own (lower-cased) key. Two runs whose earlier calls on that
/// key came at the same times give the same answer.
pub proof fn lemma_keys_do_not_interfere(
    a: Seq<(Seq<char>, u64)>,
    i: int,
    b: Seq<(Seq<char>, u64)>,
    j: int,
)
    requires
        0 <= i < a.len(),
        0 <= j < b.len(),
        a[i] == b[j],
        times_for(a.take(i), a[i].0) == times_for(b.take(j), b[j].0),
    ensures
        run_answer(a, i) == run_answer(b, j),
{
    lemma_history_of_run_own_key(a.take(i), a[i].0);
    lemma_history_of_run_own_key(b.take(j), b[j].0);
}

/// One more call on a throttle keeps it in step with the run of calls: a
/// throttle whose histories are those after `calls`, taking one call of
/// `allow_auth_attempt` (whose contract is the `requires` on `after` and
/// `r`), answers `run_answer` for that call and holds the histories after
/// the longer run.
pub proof fn lemma_throttle_follows_run(
    before: RateLimiter,
    after: RateLimiter,
    calls: Seq<(Seq<char>, u64)>,
    k: Seq<char>,
    now: u64,
    r: bool,
)
    requires
        forall|x: Seq<char>| #[trigger] before.history(x) == history_of_run(calls, x),
        (r, after.history(k)) == attempt_step(before.history(k), now),
        forall|x: Seq<char>| x != k ==> #[trigger] after.history(x) == before.history(x),
    ensures
        r == run_answer(calls.push((k, now)), calls.len() as int),
        forall|x: Seq<char>| #[trigger] after.history(x) == history_of_run(calls.push((k, now)), x),
{
    let run = calls.push((k, now));
    assert(run.take(calls.len() as int) =~= calls);
    assert(run.drop_last() =~= calls);
    assert forall|x: Seq<char>| #[trigger] after.history(x) == history_of_run(run, x) by {
        assert(before.history(x) == history_of_run(calls, x));
    }
    assert(before.history(k) == history_of_run(calls, k));
}

/// Records an attempt on `key` at `now` (nanoseconds of a monotonic clock)
/// and says whether it is admitted: it is, unless the lower-cased key has
/// already had `AUTH_MAX_ATTEMPTS` admitted attempts within the last minute.
pub fn allow_auth_attempt(limiter: &mut RateLimiter, key: &str, now: u64) -> (r: bool)
    ensures
        ({
            let k = lowercased(key@);
            &&& (r, final(limiter).history(k)) == attempt_step(old(limiter).history(k), now)
            &&& forall|other: Seq<char>|
                other != k ==> #[trigger] final(limiter).history(other) == old(limiter).history(
                    other,
                )
        }),
{
    proof {
        use_type_invariant(&*limiter);
    }
    let lowered = to_lowercase(key);
    let ghost k = lowered@;
    let mut logs: Vec<AttemptLog> = Vec::new();
    std::mem::swap(&mut logs, &mut limiter.logs);
    let ghost old_logs = logs@;
    let ghost old_lim = RateLimiter { logs: logs };
    assert(old_lim.inv());
    let mut found: Option<usize> = None;
    let mut i: usize = 0;
    while i < logs.len()
        invariant
            logs@ == old_logs,
            k == lowered@,
            i <= logs@.len(),
            found matches Some(j) ==> j < logs@.len() && logs@[j as int].key@ == k,
            found is None ==> forall|j: int| 0 <= j < i ==> #[trigger] logs@[j].key@ != k,
        decreases logs.len() - i,
    {
        if found.is_none() && logs[i].key == lowered {
            found = Some(i);
        }
        i = i + 1;
    }
    let ghost old_hist = old_lim.history(k);
    let result;
    match found {
        Some(j) => {
            proof {
                old_lim.lemma_history_at(j as int);
            }
            let mut kept = prune(&logs[j].times, now);
            if kept.len() < AUTH_MAX_ATTEMPTS {
                kept.push(now);
                result = true;
            } else {
                result = false;
            }
            logs.set(j, AttemptLog { key: lowered, times: kept });
            proof {
                let new_lim = RateLimiter { logs: logs };
                assert(new_lim.inv()) by {
                    assert forall|a: int, b: int|
                        0 <= a < b < logs@.len() implies #[trigger] logs@[a].key@
                        != #[trigger] logs@[b].key@ by {
                        assert(old_logs[a].key@ != old_logs[b].key@);
                    }
                    assert forall|a: int|
                        0 <= a < logs@.len() implies #[trigger] logs@[a].times@.len()
                        <= AUTH_MAX_ATTEMPTS by {
                        if a != j {
                            assert(old_logs[a].times@.len() <= AUTH_MAX_ATTEMPTS);
                        }
                    }
                }
                new_lim.lemma_history_at(j as int);
                assert forall|other: Seq<char>| other != k implies #[trigger] new_lim.history(other)
                    == old_lim.history(other) by {
                    if exists|a: int| 0 <= a < old_logs.len() && #[trigger] old_logs[a].key@ == other {
                        let a = choose|a: int| 0 <= a < old_logs.len() && #[trigger] old_logs[a].key@ == other;
                        old_lim.lemma_history_at(a);
                        new_lim.lemma_history_at(a);
                    } else {
                        assert forall|a: int| 0 <= a < logs@.len() implies #[trigger] logs@[a].key@ != other by {
                            if a != j {
                                assert(old_logs[a].key@ != other);
                            }
                        }
                    }
                }
            }
        },
        None => {
            let mut fresh: Vec<u64> = Vec::new();
            fresh.push(now);
            result = true;
            logs.push(AttemptLog { key: lowered, times: fresh });
            proof {
                assert(recent_attempts(Seq::<u64>::empty(), now) =~= Seq::<u64>::empty());
                let new_lim = RateLimiter { logs: logs };
                let n = old_logs.len() as int;
                assert(new_lim.inv()) by {
                    assert forall|a: int, b: int|
                        0 <= a < b < logs@.len() implies #[trigger] logs@[a].key@
                        != #[trigger] logs@[b].key@ by {
                        if b < n {
                            assert(old_logs[a].key@ != old_logs[b].key@);
                        } else {
                            assert(old_logs[a].key@ != k);
                        }
                    }
                    assert forall|a: int|
                        0 <= a < logs@.len() implies #[trigger] logs@[a].times@.len()
                        <= AUTH_MAX_ATTEMPTS by {
                        if a < n {
                            assert(old_logs[a].times@.len() <= AUTH_MAX_ATTEMPTS);
                        }
                    }
                }
                new_lim.lemma_history_at(n);
                assert(fresh@ =~= seq![now]);
                assert(!(exists|a: int| 0 <= a < old_logs.len() && #[trigger] old_logs[a].key@ == k));
                assert(old_hist =~= Seq::<u64>::empty());
                assert forall|other: Seq<char>| other != k implies #[trigger] new_lim.history(other)
                    == old_lim.history(other) by {
                    if exists|a: int| 0 <= a < old_logs.len() && #[trigger] old_logs[a].key@ == other {
                        let a = choose|a: int| 0 <= a < old_logs.len() && #[trigger] old_logs[a].key@ == other;
                        old_lim.lemma_history_at(a);
                        new_lim.lemma_history_at(a);
                    } else {
                        assert forall|a: int| 0 <= a < logs@.len() implies #[trigger] logs@[a].key@ != other by {
                            if a < n {
                                assert(old_logs[a].key@ != other);
                            }
                        }
                    }
                }
            }
        },
    }
    limiter.logs = logs;
    result
}


// ---------------------------------------------------------------------------
// The token secret and the claims of a token.

/// Checks the configured token secret (`None` when it is not set): it must
/// be set and hold more than whitespace.
pub fn validate_jwt_secret(secret: Option<&str>) -> (r: Result<(), Failure>)
    ensures
        match secret {
            None => r == Err::<(), Failure>(Failure::JwtSecretMissing),
            Some(s) => if trimmed(s@).len() == 0 {
                r == Err::<(), Failure>(Failure::JwtSecretEmpty)
            } else {
                r == Ok::<(), Failure>(())
            },
        },
{
    match secret {
        None => Err(Failure::JwtSecretMissing),
        Some(s) => {
            let t = trim(s);
            if t.as_str().is_empty() {
                Err(Failure::JwtSecretEmpty)
            } else {
                Ok(())
            }
        },
    }
}

/// How long a token stays valid, in seconds.
pub const TOKEN_LIFETIME_SECS: i64 = 86400;

/// The claims of a token issued at `issued_at` (seconds since the epoch):
/// it expires a day later.
pub fn token_claims(user_id: i32, username: &str, role: &str, issued_at: i64) -> (r: Claims)
    requires
        issued_at <= i64::MAX - TOKEN_LIFETIME_SECS,
    ensures
        r.sub@ == username@,
        r.user_id == user_id,
        r.role@ == role@,
        r.exp == issued_at + TOKEN_LIFETIME_SECS,
{
    Claims {
        sub: String::from_str(username),
        user_id,
        role: String::from_str(role),
        exp: issued_at + TOKEN_LIFETIME_SECS,
    }
}

// ---------------------------------------------------------------------------
// The bearer token of a request.

/// The value of a `name=value` cookie pair whose name is `access_token`.
pub open spec fn access_token_pair(t: Seq<char>) -> Option<Seq<char>> {
    let e = first_index(t, '=');
    if e < t.len() && t.subrange(0, e) == "access_token"@ {
        Some(t.subrange(e + 1, t.len() as int))
    } else {
        None
    }
}

/// The value of the first `access_token` cookie of a `Cookie` header, the
/// pairs being separated by `;` and trimmed of whitespace.
pub open spec fn access_token_cookie(s: Seq<char>) -> Option<Seq<char>>
    decreases s.len(),
{
    let e = first_index(s, ';');
    proof {
        lemma_first_index_bounds(s, ';');
    }
    match access_token_pair(trimmed(s.subrange(0, e))) {
        Some(v) => Some(v),
        None => if e < s.len() {
            access_token_cookie(s.subrange(e + 1, s.len() as int))
        } else {
            None
        },
    }
}

/// The token a request carries: from its `Authorization` header when it has
/// one, which must then read `Bearer <token>`; otherwise from its
/// `access_token` cookie.
pub open spec fn bearer_token(authorization: Option<Seq<char>>, cookie: Option<Seq<char>>) -> Option<
    Seq<char>,
> {
    match authorization {
        Some(a) => if has_prefix(a, "Bearer "@) {
            Some(a.subrange(7, a.len() as int))
        } else {
            None
        },
        None => match cookie {
            Some(c) => access_token_cookie(c),
            None => None,
        },
    }
}

fn cookie_token(cookie: &str) -> (r: Option<String>)
    ensures
        match r {
            Some(t) => access_token_cookie(cookie@) == Some(t@),
            None => access_token_cookie(cookie@) is None,
        },
{
    let v = chars_of(cookie);
    let n = v.len();
    let mut pos: usize = 0;
    assert(v@.subrange(0, n as int) =~= v@);
    loop
        invariant
            v@ == cookie@,
            n == v@.len(),
            pos <= n,
            access_token_cookie(cookie@) == access_token_cookie(v@.subrange(pos as int, n as int)),
        decreases n + 1 - pos,
    {
        let ghost rest = v@.subrange(pos as int, n as int);
        let e = find_char(&v, pos, n, ';');
        let (a, b) = trim_bounds(&v, pos, e);
        let q = find_char(&v, a, b, '=');
        proof {
            lemma_first_index_bounds(rest, ';');
            assert(rest.subrange(0, e - pos) =~= v@.subrange(pos as int, e as int));
            let t = v@.subrange(a as int, b as int);
            assert(t.subrange(0, q - a) =~= v@.subrange(a as int, q as int));
            if q < b {
                assert(t.subrange(q - a + 1, t.len() as int) =~= v@.subrange(q + 1, b as int));
            }
            if e < n {
                assert(rest.subrange(e - pos + 1, rest.len() as int) =~= v@.subrange(e + 1, n as int));
            }
        }
        if q < b && range_eq(&v, a, q, "access_token") {
            return Some(String::from_str(cookie.substring_char(q + 1, b)));
        }
        if e < n {
            pos = e + 1;
        } else {
            return None;
        }
    }
}

/// The token that a request carries, given its `Authorization` and `Cookie`
/// headers (`None` for a header that is absent or not visible ASCII).
pub fn extract_bearer_token(authorization: Option<&str>, cookie: Option<&str>) -> (r: Option<
    String,
>)
    ensures
        match r {
            Some(t) => bearer_token(
                match authorization {
                    Some(a) => Some(a@),
                    None => None,
                },
                match cookie {
                    Some(c) => Some(c@),
                    None => None,
                },
            ) == Some(t@),
            None => bearer_token(
                match authorization {
                    Some(a) => Some(a@),
                    None => None,
                },
                match cookie {
                    Some(c) => Some(c@),
                    None => None,
                },
            ) is None,
        },
{
    proof {
        reveal_strlit("Bearer ");
    }
    match authorization {
        Some(a) => {
            if starts_with(a, "Bearer ") {
                let n = a.unicode_len();
                Some(String::from_str(a.substring_char(7, n)))
            } else {
                None
            }
        },
        None => match cookie {
            Some(c) => cookie_token(c),
            None => None,
        },
    }
}

// ---------------------------------------------------------------------------
// Passwords.

/// Whether `bcrypt::verify(password, hash)` answers `Ok(true)`: `hash` is a
/// well-formed bcrypt hash of (the first 72 bytes of) `password`.
pub uninterp spec fn bcrypt_accepts(password: Seq<char>, hash: Seq<char>) -> bool;

/// Calls `bcrypt::hash` with the default cost; on failure the hash is empty.
/// Its salt is random, so nothing fixes the result but this: a hash that
/// `bcrypt::hash` produced verifies against the password it was made from.
#[verifier::external_body]
pub fn hash_password(password: &str) -> (r: String)
    ensures
        r@.len() == 0 || bcrypt_accepts(password@, r@),
{
    bcrypt::hash(password, bcrypt::DEFAULT_COST).unwrap_or_else(|_| "".to_string())
}

/// Calls `bcrypt::verify`, an error counting as a mismatch. An empty hash
/// is not of the form `$prefix$cost$hash` that `bcrypt::verify` reads, so it
/// is an error there and matches no password.
#[verifier::external_body]
pub fn verify_password(password: &str, hash: &str) -> (r: bool)
    ensures
        r == bcrypt_accepts(password@, hash@),
        hash@.len() == 0 ==> !r,
{
    bcrypt::verify(password, hash).unwrap_or(false)
}

/// The size in bytes of the UTF-8 encoding of `s`, as `str::len` reports it.
pub open spec fn byte_len(s: Seq<char>) -> int {
    encode_utf8(s).len() as usize as int
}

/// Whether a new password is long enough: at least six bytes once trimmed.
pub fn new_password_acceptable(password: &str) -> (r: bool)
    ensures
        r == (byte_len(trimmed(password@)) >= 6),
{
    let t = trim(password);
    t.as_str().len() >= 6
}

/// The key under which login attempts for `username` are throttled.
pub fn login_attempt_key(username: &str) -> (r: String)
    ensures
        r@ == "login:"@ + trimmed(username@),
{
    let t = trim(username);
    String::from_str("login:").concat(t.as_str())
}

/// What a successful login answers.
pub struct LoginResponse {
    pub user_id: i32,
    pub username: String,
    pub role: String,
}

/// A login request.
pub struct LoginRequest {
    pub username: String,
    pub password: String,
}

/// Checks a login against the account found under its user name (`None`
/// when there is none): the account must not be deleted and the password
/// must match its hash.
pub fn authenticate(account: Option<&User>, password: &str) -> (r: Result<LoginResponse, Failure>)
    ensures
        match account {
            Some(u) if !u.deleted && bcrypt_accepts(password@, u.password_hash@) => r matches Ok(
                resp,
            ) && resp.user_id == u.id && resp.username == u.username && resp.role == u.role,
            _ => r matches Err(e) && e == Failure::BadCredentials,
        },
{
    match account {
        Some(u) => {
            if u.deleted {
                return Err(Failure::BadCredentials);
            }
            if !verify_password(password, u.password_hash.as_str()) {
                return Err(Failure::BadCredentials);
            }
            Ok(LoginResponse { user_id: u.id, username: u.username.clone(), role: u.role.clone() })
        },
        None => Err(Failure::BadCredentials),
    }
}

/// A request to change one's password.
pub struct ChangePasswordRequest {
    pub old_password: String,
    pub new_password: String,
}

/// Checks a password change by the owner of `account` (`None` when the
/// caller's account is not found) and gives the hash to store: the new
/// password must be long enough, the old one must match and the new one
/// must differ from it.
pub fn password_change(account: Option<&User>, request: &ChangePasswordRequest) -> (r: Result<
    String,
    Failure,
>)
    ensures
        !(byte_len(trimmed(request.new_password@)) >= 6) ==> r == Err::<String, Failure>(
            Failure::NewPasswordTooShort,
        ),
        byte_len(trimmed(request.new_password@)) >= 6 ==> match account {
            Some(u) if !u.deleted => if !bcrypt_accepts(request.old_password@, u.password_hash@) {
                r == Err::<String, Failure>(Failure::WrongOldPassword)
            } else if bcrypt_accepts(request.new_password@, u.password_hash@) {
                r == Err::<String, Failure>(Failure::SamePassword)
            } else {
                (r matches Ok(h) && (h@.len() == 0 || bcrypt_accepts(request.new_password@, h@)))
            },
            _ => r == Err::<String, Failure>(Failure::AccountNotFound),
        },
{
    if !new_password_acceptable(request.new_password.as_str()) {
        return Err(Failure::NewPasswordTooShort);
    }
    match account {
        Some(u) => {
            if u.deleted {
                return Err(Failure::AccountNotFound);
            }
            if !verify_password(request.old_password.as_str(), u.password_hash.as_str()) {
                return Err(Failure::WrongOldPassword);
            }
            if verify_password(request.new_password.as_str(), u.password_hash.as_str()) {
                return Err(Failure::SamePassword);
            }
            Ok(hash_password(request.new_password.as_str()))
        },
        None => Err(Failure::AccountNotFound),
    }
}

/// The administrator account created when the store has none: its
/// password must be at least twelve characters once trimmed.
pub fn initial_admin(password: &str) -> (r: Result<NewUser, Failure>)
    ensures
        trimmed(password@).len() < 12 ==> r == Err::<NewUser, Failure>(
            Failure::AdminPasswordTooShort,
        ),
        trimmed(password@).len() >= 12 ==> (r matches Ok(u) && u.username@ == "admin"@
            && u.email@ == "admin@zdht.com"@ && u.role@ == "admin"@ && u.department_id is None && (
        u.password_hash@.len() == 0 || bcrypt_accepts(password@, u.password_hash@))),
{
    let t = trim(password);
    if t.as_str().unicode_len() < 12 {
        return Err(Failure::AdminPasswordTooShort);
    }
    Ok(
        NewUser {
            username: String::from_str("admin"),
            email: String::from_str("admin@zdht.com"),
            password_hash: hash_password(password),
            role: String::from_str("admin"),
            department_id: None,
        },
    )
}

/// What start-up does about the administrator account: `existing` is the
/// account named `admin` in the store, deleted or not, and `password` the
/// configured `ADMIN_PASSWORD` (`None` when it is not set). When the account
/// exists nothing is created and the password is not looked at; otherwise
/// the password must be set and long enough.
pub fn admin_to_create(existing: Option<&User>, password: Option<&str>) -> (r: Result<Option<NewUser>, Failure>)
    ensures
        existing is Some ==> r == Ok::<Option<NewUser>, Failure>(None),
        existing is None && password is None ==> r == Err::<Option<NewUser>, Failure>(
            Failure::AdminPasswordMissing,
        ),
        existing is None && password is Some && trimmed(password->0@).len() < 12 ==> r == Err::<
            Option<NewUser>,
            Failure,
        >(Failure::AdminPasswordTooShort),
        existing is None && password is Some && trimmed(password->0@).len() >= 12 ==> (r matches Ok(
            Some(u),
        ) && u.username@ == "admin"@ && u.email@ == "admin@zdht.com"@ && u.role@ == "admin"@
            && u.department_id is None && (u.password_hash@.len() == 0 || bcrypt_accepts(
            password->0@,
            u.password_hash@,
        ))),
{
    if existing.is_some() {
        return Ok(None);
    }
    match password {
        None => Err(Failure::AdminPasswordMissing),
        Some(p) => match initial_admin(p) {
            Ok(u) => Ok(Some(u)),
            Err(f) => Err(f),
        },
    }
}

} // verus!
