//! Per-IP login rate limiting: a brute-force defence for the login endpoint.
//!
//! Each IP is allowed at most [`MAX_ATTEMPTS`] login attempts within a sliding
//! window of [`WINDOW_NANOS`]. Attempts over the limit are refused, with the
//! number of seconds to wait, before any password is hashed. A successful login
//! calls [`LoginRateLimiter::reset`], and a periodic sweep calls
//! [`LoginRateLimiter::purge_expired`].
//!
//! Instants are nanoseconds since the limiter was made.

use dashmap::DashMap;
use std::time::Instant;
use vstd::prelude::*;

verus! {

/// Attempts in one window before a bucket is rate-limited.
pub const MAX_ATTEMPTS: usize = 5;

/// The sliding window over which attempts are counted: ten minutes.
pub const WINDOW_NANOS: u128 = 600_000_000_000;

pub const NANOS_PER_SECOND: u128 = 1_000_000_000;

/// The concurrent map of the `dashmap` crate.
#[verifier::external_type_specification]
#[verifier::external_body]
#[verifier::reject_recursive_types(K)]
#[verifier::reject_recursive_types(V)]
#[verifier::reject_recursive_types(S)]
pub struct ExDashMap<K, V, S>(DashMap<K, V, S>);

/// The monotonic clock reading of std.
#[verifier::external_type_specification]
#[verifier::external_body]
pub struct ExInstant(Instant);

/// What the map holds: the instants of the attempts of each IP.
pub uninterp spec fn contents(
    map: DashMap<String, Vec<u128>>,
) -> Map<Seq<char>, Seq<u128>>;

/// No IP has an attempt on record.
pub open spec fn no_buckets() -> Map<Seq<char>, Seq<u128>> {
    Map::empty()
}

/// Calls `DashMap::new`: a map without entries.
#[verifier::external_body]
fn new_map() -> (made: DashMap<String, Vec<u128>>)
    ensures
        contents(made) == no_buckets(),
{
    DashMap::new()
}

/// Calls `DashMap::entry` and `or_insert_with(Vec::new)`: a key that the map
/// lacks enters it with an empty value, nothing else changes, and what comes back
/// is a copy of the value of the key.
#[verifier::external_body]
fn value_or_empty(map: &mut DashMap<String, Vec<u128>>, key: &str) -> (value: Vec<u128>)
    ensures
        contents(*final(map)) == (if contents(*old(map)).dom().contains(key@) {
            contents(*old(map))
        } else {
            contents(*old(map)).insert(key@, Seq::empty())
        }),
        contents(*final(map)).dom().contains(key@),
        value@ == contents(*final(map))[key@],
{
    map.entry(key.to_owned()).or_insert_with(Vec::new).clone()
}

/// Calls `DashMap::insert`: the key has the new value, whatever it had before, and
/// nothing else changes.
#[verifier::external_body]
fn put(map: &mut DashMap<String, Vec<u128>>, key: &str, value: Vec<u128>)
    ensures
        contents(*final(map)) == contents(*old(map)).insert(key@, value@),
{
    map.insert(key.to_owned(), value);
}

/// Calls `DashMap::remove`: the key leaves the map, where it was there, and
/// nothing else changes.
#[verifier::external_body]
fn take_out(map: &mut DashMap<String, Vec<u128>>, key: &str)
    ensures
        contents(*final(map)) == contents(*old(map)).remove(key@),
{
    map.remove(key);
}

/// Calls `DashMap::retain` with [`keep_recent`]: exactly the keys for which it
/// answers true stay, each with the value that it left.
#[verifier::external_body]
fn retain_recent(map: &mut DashMap<String, Vec<u128>>, now: u128)
    ensures
        contents(*final(map)) == purged(contents(*old(map)), now),
{
    map.retain(|_ip, attempts| keep_recent(attempts, now));
}

/// Calls `Instant::now`. Which instant it is depends on the machine's clock.
#[verifier::external_body]
fn current_instant() -> Instant {
    Instant::now()
}

/// Calls `Instant::elapsed`: the nanoseconds that have passed since `start`. How
/// many there are depends on the machine's clock.
#[verifier::external_body]
fn nanos_since(start: &Instant) -> u128 {
    start.elapsed().as_nanos()
}

/// An attempt at `t` still counts at `now`.
pub open spec fn counts(t: u128, now: u128) -> bool {
    t + WINDOW_NANOS > now
}

/// The attempts that still count at `now`, oldest first.
pub open spec fn recent(attempts: Seq<u128>, now: u128) -> Seq<u128>
    decreases attempts.len(),
{
    if attempts.len() == 0 {
        attempts
    } else {
        let before = recent(attempts.drop_last(), now);
        if counts(attempts.last(), now) {
            before.push(attempts.last())
        } else {
            before
        }
    }
}

/// The seconds to wait, at `now`, until the oldest of `attempts` ages out, rounded
/// up to a whole second; one second where none is left.
pub open spec fn wait_secs(attempts: Seq<u128>, now: u128) -> u64 {
    let live = recent(attempts, now);
    if live.len() == 0 {
        1
    } else {
        let age = if live[0] > now {
            0int
        } else {
            now - live[0]
        };
        ((WINDOW_NANOS - age) / NANOS_PER_SECOND as int + 1) as u64
    }
}

/// The buckets without the attempts that no longer count at `now`; a bucket that
/// would be empty is gone.
pub open spec fn purged(
    buckets: Map<Seq<char>, Seq<u128>>,
    now: u128,
) -> Map<Seq<char>, Seq<u128>> {
    Map::new(
        |ip: Seq<char>| buckets.dom().contains(ip) && recent(buckets[ip], now).len() > 0,
        |ip: Seq<char>| recent(buckets[ip], now),
    )
}

/// The attempts recorded for `ip`.
pub open spec fn attempts_of(buckets: Map<Seq<char>, Seq<u128>>, ip: Seq<char>) -> Seq<u128> {
    if buckets.dom().contains(ip) {
        buckets[ip]
    } else {
        Seq::empty()
    }
}

/// One more attempt of `ip` at `now` stands behind those that still count.
pub open spec fn recorded(
    buckets: Map<Seq<char>, Seq<u128>>,
    ip: Seq<char>,
    now: u128,
) -> Map<Seq<char>, Seq<u128>> {
    buckets.insert(ip, recent(attempts_of(buckets, ip), now).push(now))
}

/// The answer to an attempt of `ip` at `now`.
pub open spec fn verdict(
    buckets: Map<Seq<char>, Seq<u128>>,
    ip: Seq<char>,
    now: u128,
) -> Result<(), u64> {
    let attempts = attempts_of(buckets, ip);
    if recent(attempts, now).len() >= MAX_ATTEMPTS {
        Err(wait_secs(attempts, now))
    } else {
        Ok(())
    }
}

/// The attempt record of one IP.
pub struct Bucket {
    /// The instants of the attempts, oldest first.
    pub attempts: Vec<u128>,
}

impl Bucket {
    pub fn new() -> (r: Self)
        ensures
            r.attempts@ == Seq::<u128>::empty(),
    {
        Bucket { attempts: Vec::with_capacity(MAX_ATTEMPTS + 1) }
    }

    /// Drops the attempts that no longer count at `now`.
    pub fn prune(&mut self, now: u128)
        ensures
            final(self).attempts@ == recent(old(self).attempts@, now),
    {
        let mut kept: Vec<u128> = Vec::with_capacity(MAX_ATTEMPTS + 1);
        let mut i: usize = 0;
        while i < self.attempts.len()
            invariant
                i <= self.attempts.len(),
                *self == *old(self),
                kept@ == recent(self.attempts@.take(i as int), now),
            decreases self.attempts.len() - i,
        {
            let t: u128 = self.attempts[i];
            assert(self.attempts@.take(i + 1).drop_last() =~= self.attempts@.take(i as int));
            assert(self.attempts@.take(i + 1).last() == t);
            if t > now || now - t < WINDOW_NANOS {
                kept.push(t);
            }
            i += 1;
        }
        assert(self.attempts@.take(i as int) =~= self.attempts@);
        self.attempts = kept;
    }

    /// Whether the bucket is at its limit at `now`. Attempts that no longer count
    /// are dropped.
    pub fn is_limited(&mut self, now: u128) -> (r: bool)
        ensures
            final(self).attempts@ == recent(old(self).attempts@, now),
            r == (recent(old(self).attempts@, now).len() >= MAX_ATTEMPTS),
    {
        self.prune(now);
        self.attempts.len() >= MAX_ATTEMPTS
    }

    /// Records an attempt at `now`.
    pub fn record(&mut self, now: u128)
        ensures
            final(self).attempts@ == old(self).attempts@.push(now),
    {
        self.attempts.push(now);
    }

    /// Seconds until the oldest attempt that counts at `now` ages out. Attempts that
    /// no longer count are dropped.
    pub fn retry_after_secs(&mut self, now: u128) -> (r: u64)
        ensures
            final(self).attempts@ == recent(old(self).attempts@, now),
            r == wait_secs(old(self).attempts@, now),
            1 <= r <= 601,
    {
        proof {
            recent_all_count(self.attempts@, now);
        }
        self.prune(now);
        if self.attempts.len() == 0 {
            return 1;
        }
        let oldest: u128 = self.attempts[0];
        assert(counts(self.attempts@[0], now));
        let age: u128 = if oldest > now {
            0
        } else {
            now - oldest
        };
        ((WINDOW_NANOS - age) / NANOS_PER_SECOND + 1) as u64
    }
}

/// Drops the attempts that no longer count at `now`, and says whether any is left.
pub fn keep_recent(attempts: &mut Vec<u128>, now: u128) -> (r: bool)
    ensures
        final(attempts)@ == recent(old(attempts)@, now),
        r == (recent(old(attempts)@, now).len() > 0),
{
    let mut all: Vec<u128> = Vec::new();
    all.append(attempts);
    let mut bucket: Bucket = Bucket { attempts: all };
    bucket.prune(now);
    let some: bool = bucket.attempts.len() > 0;
    attempts.append(&mut bucket.attempts);
    assert(attempts@ =~= recent(old(attempts)@, now));
    some
}

/// The login rate limiter.
pub struct LoginRateLimiter {
    /// The attempts of each IP.
    pub buckets: DashMap<String, Vec<u128>>,
    /// The instant that the recorded ones are counted from.
    pub started: Instant,
}

impl LoginRateLimiter {
    /// The attempts of each IP.
    pub open spec fn view(&self) -> Map<Seq<char>, Seq<u128>> {
        contents(self.buckets)
    }

    /// A limiter that has seen no attempt.
    pub fn new() -> (r: Self)
        ensures
            r@ == no_buckets(),
    {
        LoginRateLimiter { buckets: new_map(), started: current_instant() }
    }

    /// Checks whether `ip` is over the limit, now. Records the attempt in its bucket
    /// regardless.
    ///
    /// `Ok` means that the attempt is allowed; `Err` holds the number of seconds for
    /// the `Retry-After` header.
    pub fn check_and_record(&mut self, ip: &str) -> (r: Result<(), u64>)
        ensures
            final(self).started == old(self).started,
            exists|now: u128|
                r == verdict(old(self)@, ip@, now) && final(self)@ == #[trigger] recorded(
                    old(self)@,
                    ip@,
                    now,
                ),
            attempts_of(old(self)@, ip@).len() < MAX_ATTEMPTS ==> r is Ok,
            r matches Err(wait) ==> 1 <= wait <= 601,
    {
        let now: u128 = nanos_since(&self.started);
        proof {
            recent_is_no_longer(attempts_of(self@, ip@), now);
        }
        let r = self.check_and_record_at(ip, now);
        assert(self@ == recorded(old(self)@, ip@, now));
        r
    }

    /// [`LoginRateLimiter::check_and_record`] at the instant `now`.
    pub fn check_and_record_at(&mut self, ip: &str, now: u128) -> (r: Result<(), u64>)
        ensures
            final(self).started == old(self).started,
            r == verdict(old(self)@, ip@, now),
            final(self)@ == recorded(old(self)@, ip@, now),
            r matches Err(wait) ==> 1 <= wait <= 601,
    {
        let attempts: Vec<u128> = value_or_empty(&mut self.buckets, ip);
        let mut bucket: Bucket = Bucket { attempts };
        let ghost before = bucket.attempts@;
        assert(before == attempts_of(old(self)@, ip@));
        proof {
            recent_is_stable(before, now, now);
        }
        let limited: bool = bucket.is_limited(now);
        let mut wait: u64 = 0;
        if limited {
            wait = bucket.retry_after_secs(now);
        }
        bucket.record(now);
        put(&mut self.buckets, ip, bucket.attempts);
        assert(self@ =~= recorded(old(self)@, ip@, now));
        if limited {
            Err(wait)
        } else {
            Ok(())
        }
    }

    /// Resets the bucket of `ip`, after a successful login.
    pub fn reset(&mut self, ip: &str)
        ensures
            final(self).started == old(self).started,
            final(self)@ == old(self)@.remove(ip@),
    {
        take_out(&mut self.buckets, ip);
    }

    /// Drops all buckets whose attempts no longer count, now.
    pub fn purge_expired(&mut self)
        ensures
            final(self).started == old(self).started,
            exists|now: u128| final(self)@ == #[trigger] purged(old(self)@, now),
    {
        let now: u128 = nanos_since(&self.started);
        self.purge_expired_at(now);
        assert(self@ == purged(old(self)@, now));
    }

    /// [`LoginRateLimiter::purge_expired`] at the instant `now`.
    pub fn purge_expired_at(&mut self, now: u128)
        ensures
            final(self).started == old(self).started,
            final(self)@ == purged(old(self)@, now),
    {
        retain_recent(&mut self.buckets, now);
    }
}

impl Default for LoginRateLimiter {
    fn default() -> (r: Self)
        ensures
            r@ == no_buckets(),
    {
        LoginRateLimiter::new()
    }
}

/// The IP of the remote peer, or the stand-in where the connection carries none.
pub struct PeerIp(pub String);

/// The peer of a connection, given the IP that it carries. The stand-in for an
/// unknown peer is no IP, so no client shares its bucket.
pub fn peer_ip(connected: Option<String>) -> (r: PeerIp)
    ensures
        r.0@ == match connected {
            Some(ip) => ip@,
            None => "test-sentinel-no-connectinfo"@,
        },
{
    match connected {
        Some(ip) => PeerIp(ip),
        None => PeerIp("test-sentinel-no-connectinfo".to_owned()),
    }
}

proof fn recent_all_count(attempts: Seq<u128>, now: u128)
    ensures
        forall|i: int| 0 <= i < recent(attempts, now).len() ==> counts(
            #[trigger] recent(attempts, now)[i],
            now,
        ),
    decreases attempts.len(),
{
    if attempts.len() > 0 {
        let before = recent(attempts.drop_last(), now);
        recent_all_count(attempts.drop_last(), now);
        assert forall|i: int| 0 <= i < recent(attempts, now).len() implies counts(
            #[trigger] recent(attempts, now)[i],
            now,
        ) by {
            if i < before.len() {
                assert(recent(attempts, now)[i] == before[i]);
            }
        }
    }
}

proof fn recent_is_no_longer(attempts: Seq<u128>, now: u128)
    ensures
        recent(attempts, now).len() <= attempts.len(),
    decreases attempts.len(),
{
    if attempts.len() > 0 {
        recent_is_no_longer(attempts.drop_last(), now);
    }
}

/// An attempt that was dropped once would count at no later instant either.
pub proof fn recent_is_stable(attempts: Seq<u128>, now: u128, later: u128)
    requires
        now <= later,
    ensures
        recent(recent(attempts, now), later) == recent(attempts, later),
    decreases attempts.len(),
{
    if attempts.len() > 0 {
        let front = attempts.drop_last();
        recent_is_stable(front, now, later);
        if counts(attempts.last(), now) {
            assert(recent(attempts, now).drop_last() =~= recent(front, now));
        }
    }
}

/// The bucket of an IP after its attempts at `times`, in order.
pub open spec fn bucket_after(times: Seq<u128>) -> Seq<u128>
    decreases times.len(),
{
    if times.len() == 0 {
        times
    } else {
        recent(bucket_after(times.drop_last()), times.last()).push(times.last())
    }
}

/// No attempt is forgotten while it counts: after attempts at instants that never
/// go back, the bucket holds exactly those of them that still count. So an attempt
/// is allowed if and only if fewer than [`MAX_ATTEMPTS`] earlier ones lie in its
/// window.
pub proof fn the_bucket_holds_every_attempt_that_counts(times: Seq<u128>)
    requires
        times.len() > 0,
        forall|i: int, j: int| 0 <= i <= j < times.len() ==> times[i] <= times[j],
    ensures
        bucket_after(times) == recent(times, times.last()),
        recent(bucket_after(times.drop_last()), times.last()) == recent(
            times.drop_last(),
            times.last(),
        ),
    decreases times.len(),
{
    let front = times.drop_last();
    assert(counts(times.last(), times.last()));
    if front.len() > 0 {
        assert forall|i: int, j: int| 0 <= i <= j < front.len() implies front[i] <= front[j] by {
            assert(times[i] <= times[j]);
        }
        the_bucket_holds_every_attempt_that_counts(front);
        recent_is_stable(front, front.last(), times.last());
    }
    assert(recent(times, times.last()) == recent(front, times.last()).push(times.last()));
    assert(bucket_after(times) == recent(bucket_after(front), times.last()).push(times.last()));
}

/// A reset lets the next attempt through, and changes no other IP's bucket.
pub proof fn reset_lets_the_next_attempt_through(
    buckets: Map<Seq<char>, Seq<u128>>,
    ip: Seq<char>,
    other: Seq<char>,
    now: u128,
)
    requires
        other != ip,
    ensures
        verdict(buckets.remove(ip), ip, now) is Ok,
        verdict(buckets.remove(ip), other, now) == verdict(buckets, other, now),
{
}

/// IPs are isolated: an attempt of one IP changes the verdict on no other.
pub proof fn ips_are_isolated(
    buckets: Map<Seq<char>, Seq<u128>>,
    ip: Seq<char>,
    other: Seq<char>,
    now: u128,
    later: u128,
)
    requires
        other != ip,
    ensures
        verdict(recorded(buckets, ip, now), other, later) == verdict(buckets, other, later),
{
}

/// A sweep changes no verdict at its own instant or later, and keeps every bucket
/// with an attempt that counts.
pub proof fn purging_changes_no_verdict(
    buckets: Map<Seq<char>, Seq<u128>>,
    ip: Seq<char>,
    now: u128,
    later: u128,
)
    requires
        now <= later,
    ensures
        verdict(purged(buckets, now), ip, later) == verdict(buckets, ip, later),
        recent(attempts_of(buckets, ip), now).len() > 0 ==> purged(buckets, now).dom().contains(ip),
{
    let attempts = attempts_of(buckets, ip);
    recent_is_stable(attempts, now, later);
    recent_is_stable(attempts, later, later);
    if recent(attempts, now).len() == 0 {
        assert(recent(attempts, now) =~= Seq::<u128>::empty());
    }
}

/// An attempt counts for less than a window's length, and counts in that time.
pub proof fn an_attempt_counts_for_one_window(attempts: Seq<u128>, now: u128, t: u128)
    ensures
        recent(attempts, now).contains(t) <==> attempts.contains(t) && now < t + WINDOW_NANOS,
    decreases attempts.len(),
{
    if attempts.len() > 0 {
        let front = attempts.drop_last();
        let before = recent(front, now);
        let all = recent(attempts, now);
        an_attempt_counts_for_one_window(front, now, t);
        if front.contains(t) {
            let i = choose|i: int| 0 <= i < front.len() && front[i] == t;
            assert(attempts[i] == t);
        }
        if attempts.contains(t) {
            let i = choose|i: int| 0 <= i < attempts.len() && attempts[i] == t;
            if i < front.len() {
                assert(front[i] == t);
            }
        }
        if before.contains(t) {
            let i = choose|i: int| 0 <= i < before.len() && before[i] == t;
            assert(all[i] == t);
        }
        if counts(attempts.last(), now) {
            assert(all[all.len() - 1] == attempts.last());
            assert(attempts[attempts.len() - 1] == attempts.last());
        }
        if all.contains(t) {
            let i = choose|i: int| 0 <= i < all.len() && all[i] == t;
            if i < before.len() {
                assert(before[i] == t);
            } else {
                assert(attempts[attempts.len() - 1] == t);
            }
        }
    }
}

/// An attempt is refused exactly where the most attempts that are allowed already count, and
/// is recorded either way behind those that count.
pub proof fn only_a_full_window_refuses(
    buckets: Map<Seq<char>, Seq<u128>>,
    ip: Seq<char>,
    now: u128,
)
    ensures
        verdict(buckets, ip, now) is Err <==> buckets.dom().contains(ip) && recent(
            buckets[ip],
            now,
        ).len() >= 5,
        !buckets.dom().contains(ip) ==> verdict(buckets, ip, now) is Ok,
        recorded(buckets, ip, now).dom().contains(ip),
        recorded(buckets, ip, now)[ip].last() == now,
        buckets.dom().contains(ip) ==> recorded(buckets, ip, now)[ip].drop_last() == recent(
            buckets[ip],
            now,
        ),
{
    if buckets.dom().contains(ip) {
        assert(recorded(buckets, ip, now)[ip].drop_last() =~= recent(buckets[ip], now));
    }
}

/// Waiting as long as a refusal says is enough for the oldest attempt that counts to age out,
/// and a second less is not: the wait is rounded up, never short, and at least one second.
pub proof fn the_wait_is_long_enough(attempts: Seq<u128>, now: u128)
    requires
        recent(attempts, now).len() > 0,
        recent(attempts, now)[0] <= now,
    ensures
        wait_secs(attempts, now) >= 1,
        recent(attempts, now)[0] + WINDOW_NANOS < now + wait_secs(attempts, now)
            * NANOS_PER_SECOND,
        recent(attempts, now)[0] + WINDOW_NANOS >= now + (wait_secs(attempts, now) - 1)
            * NANOS_PER_SECOND,
{
    let oldest = recent(attempts, now)[0];
    an_attempt_counts_for_one_window(attempts, now, oldest);
    let left = WINDOW_NANOS - (now - oldest);
    let n = NANOS_PER_SECOND as int;
    assert(0 < left <= WINDOW_NANOS);
    assert(left == n * (left / n) + left % n && 0 <= left % n < n) by (nonlinear_arith)
        requires
            n > 0,
    ;
    assert((left / n + 1) * n == n * (left / n) + n) by (nonlinear_arith);
    assert((left / n) * n == n * (left / n)) by (nonlinear_arith);
    assert(0 <= left / n <= left) by (nonlinear_arith)
        requires
            n > 0,
            left > 0,
    ;
}

} // verus!
