use vstd::prelude::*;
use crate::errors::LLMPoolError;
use crate::text::str_is;

verus! {

/// A token bucket in mathematical terms. The level is kept in thousandths
/// of a token; the rate is in tokens per second, which is thousandths of a
/// token per millisecond.
pub struct BucketModel {
    pub rate_rps: nat,
    pub burst: nat,
    pub level_milli: nat,
    pub last_ms: nat,
}

/// Per-tenant token bucket with continuous refill.
pub struct TenantBucket {
    rate_rps: u32,
    burst: u32,
    level_milli: u64,
    last_ms: u64,
}

impl View for TenantBucket {
    type V = BucketModel;

    closed spec fn view(&self) -> BucketModel {
        BucketModel {
            rate_rps: self.rate_rps as nat,
            burst: self.burst as nat,
            level_milli: self.level_milli as nat,
            last_ms: self.last_ms as nat,
        }
    }
}

/// The level never exceeds the burst capacity.
pub open spec fn bucket_wf(m: BucketModel) -> bool {
    &&& m.level_milli <= m.burst * 1000
    &&& m.burst <= u32::MAX
    &&& m.rate_rps <= u32::MAX
}

/// The bucket refilled for the time elapsed up to `now`; a clock that went
/// back refills nothing.
pub open spec fn refilled(m: BucketModel, now: nat) -> BucketModel {
    if now > m.last_ms {
        let grown = m.level_milli + (now - m.last_ms) * m.rate_rps;
        BucketModel {
            level_milli: if grown > m.burst * 1000 { m.burst * 1000 } else { grown as nat },
            last_ms: now,
            ..m
        }
    } else {
        m
    }
}

/// Whether a request at `now` is admitted.
pub open spec fn admits(m: BucketModel, now: nat) -> bool {
    refilled(m, now).level_milli >= 1000
}

/// The bucket after a request at `now`: refilled, less one token if the
/// request was admitted.
pub open spec fn after_take(m: BucketModel, now: nat) -> BucketModel {
    let r = refilled(m, now);
    if r.level_milli >= 1000 {
        BucketModel { level_milli: (r.level_milli - 1000) as nat, ..r }
    } else {
        r
    }
}

impl TenantBucket {
    /// A full bucket, last refilled at `now`.
    pub fn new(rate_rps: u32, burst: u32, now: u64) -> (r: TenantBucket)
        ensures
            bucket_wf(r@),
            r@ == (BucketModel {
                rate_rps: rate_rps as nat,
                burst: burst as nat,
                level_milli: burst as nat * 1000,
                last_ms: now as nat,
            }),
    {
        TenantBucket { rate_rps, burst, level_milli: burst as u64 * 1000, last_ms: now }
    }

    /// Takes one token at time `now` if there is one.
    pub fn try_take(&mut self, now: u64) -> (r: bool)
        requires
            bucket_wf(old(self)@),
        ensures
            r == admits(old(self)@, now as nat),
            final(self)@ == after_take(old(self)@, now as nat),
            bucket_wf(final(self)@),
    {
        let cap: u64 = self.burst as u64 * 1000;
        if now > self.last_ms {
            let elapsed = (now - self.last_ms) as u128;
            let rate = self.rate_rps as u128;
            assert(elapsed * rate <= 0xffff_ffff_ffff_ffff * 0xffff_ffff) by (nonlinear_arith)
                requires
                    elapsed <= 0xffff_ffff_ffff_ffff,
                    rate <= 0xffff_ffff,
            ;
            let grown: u128 = self.level_milli as u128 + elapsed * rate;
            self.level_milli = if grown > cap as u128 { cap } else { grown as u64 };
            self.last_ms = now;
        }
        if self.level_milli >= 1000 {
            self.level_milli = self.level_milli - 1000;
            true
        } else {
            false
        }
    }
}

/// The result of a series of requests at `times`: the bucket afterwards
/// and how many were admitted.
pub open spec fn after_takes(m: BucketModel, times: Seq<nat>) -> (BucketModel, nat)
    decreases times.len(),
{
    if times.len() == 0 {
        (m, 0)
    } else {
        let (b, n) = after_takes(m, times.drop_last());
        (after_take(b, times.last()), n + if admits(b, times.last()) { 1nat } else { 0nat })
    }
}

pub open spec fn nondecreasing(times: Seq<nat>) -> bool {
    forall|i: int, j: int| 0 <= i <= j < times.len() ==> times[i] <= times[j]
}

proof fn lemma_takes_bound(m: BucketModel, times: Seq<nat>)
    requires
        bucket_wf(m),
        times.len() > 0,
        nondecreasing(times),
    ensures
        ({
            let (b, n) = after_takes(m, times);
            &&& bucket_wf(b)
            &&& b.rate_rps == m.rate_rps && b.burst == m.burst
            &&& b.last_ms >= times.last()
            &&& b.level_milli + 1000 * n <= 1000 * m.burst + m.rate_rps * (times.last() - times[0])
        }),
    decreases times.len(),
{
    let prefix = times.drop_last();
    let t = times.last();
    if prefix.len() == 0 {
        assert(m.rate_rps * (t - times[0]) == 0) by (nonlinear_arith)
            requires t == times[0];
    } else {
        assert(nondecreasing(prefix));
        lemma_takes_bound(m, prefix);
        let (b, n) = after_takes(m, prefix);
        let tp = prefix.last();
        assert(tp == times[times.len() - 2]);
        assert(tp <= t && times[0] <= tp);
        let r = refilled(b, t);
        if t > b.last_ms {
            let d = (t - b.last_ms) as nat;
            assert(d * m.rate_rps <= (t - tp) * m.rate_rps) by (nonlinear_arith)
                requires d <= t - tp;
        }
        assert(r.level_milli <= b.level_milli + (t - tp) * m.rate_rps);
        assert(m.rate_rps * (tp - times[0]) + (t - tp) * m.rate_rps == m.rate_rps * (t - times[0]))
            by (nonlinear_arith)
            requires times[0] <= tp <= t;
    }
}

/// Rate limit: over any series of requests at nondecreasing times, no more
/// are admitted than the burst plus the rate times the span between the
/// first and the last request (counted in thousandths of a token).
pub proof fn lemma_admitted_within_rate(m: BucketModel, times: Seq<nat>)
    requires
        bucket_wf(m),
        times.len() > 0,
        nondecreasing(times),
    ensures
        1000 * after_takes(m, times).1 <= 1000 * m.burst + m.rate_rps * (times.last() - times[0]),
{
    lemma_takes_bound(m, times);
}

/// Per-tenant buckets, searched by tenant id front to back.
pub struct RateLimiter {
    pub tenants: Vec<(String, TenantBucket)>,
}

/// The position of the first bucket of tenant `id`.
pub open spec fn tenant_pos(ts: Seq<(String, TenantBucket)>, id: Seq<char>, i: int) -> bool {
    &&& 0 <= i < ts.len()
    &&& ts[i].0@ == id
    &&& forall|j: int| 0 <= j < i ==> ts[j].0@ != id
}

pub open spec fn limiter_wf(ts: Seq<(String, TenantBucket)>) -> bool {
    forall|i: int| 0 <= i < ts.len() ==> bucket_wf(#[trigger] ts[i].1@)
}

/// Tenant `id` has a bucket.
pub open spec fn tenant_known(ts: Seq<(String, TenantBucket)>, id: Seq<char>) -> bool {
    exists|i: int| tenant_pos(ts, id, i)
}

/// Tenant `id` has a bucket that admits a request at `now`.
pub open spec fn tenant_admitted(ts: Seq<(String, TenantBucket)>, id: Seq<char>, now: u64) -> bool {
    exists|i: int| tenant_pos(ts, id, i) && admits(ts[i].1@, now as nat)
}

/// `new_ts` is `old_ts` after a request of tenant `id` at `now`: its bucket
/// refilled and, if it admitted, one token lighter; every other bucket as
/// it was.
pub open spec fn took_from(old_ts: Seq<(String, TenantBucket)>, new_ts: Seq<(String, TenantBucket)>, id: Seq<char>, now: u64) -> bool {
    &&& new_ts.len() == old_ts.len()
    &&& !tenant_known(old_ts, id) ==> new_ts == old_ts
    &&& forall|i: int| tenant_pos(old_ts, id, i) ==> {
        &&& new_ts[i].1@ == after_take(old_ts[i].1@, now as nat)
        &&& new_ts[i].0@ == old_ts[i].0@
        &&& forall|j: int| 0 <= j < old_ts.len() && j != i ==> #[trigger] new_ts[j] == old_ts[j]
    }
}

impl RateLimiter {
    /// Decides whether tenant `tenant_id` may make a request at `now`.
    /// Unknown tenants are refused as unauthenticated; known tenants are
    /// admitted while their bucket holds a token.
    pub fn check(&mut self, tenant_id: &str, now: u64) -> (r: Result<(), LLMPoolError>)
        requires
            limiter_wf(old(self).tenants@),
        ensures
            limiter_wf(final(self).tenants@),
            took_from(old(self).tenants@, final(self).tenants@, tenant_id@, now),
            !tenant_known(old(self).tenants@, tenant_id@) ==> r matches Err(LLMPoolError::AuthError(_)),
            tenant_known(old(self).tenants@, tenant_id@) ==> (r is Ok <==> tenant_admitted(old(self).tenants@, tenant_id@, now))
                && (r is Err ==> r matches Err(LLMPoolError::RateLimitExceeded)),
            final(self).tenants@.len() == old(self).tenants@.len(),
            (forall|i: int| !tenant_pos(old(self).tenants@, tenant_id@, i)) ==> r is Err
                && r->Err_0 is AuthError && final(self).tenants@ == old(self).tenants@,
            forall|i: int| tenant_pos(old(self).tenants@, tenant_id@, i) ==> {
                &&& (r is Ok <==> admits(old(self).tenants@[i].1@, now as nat))
                &&& (r is Err ==> r->Err_0 is RateLimitExceeded)
                &&& final(self).tenants@[i].1@ == after_take(old(self).tenants@[i].1@, now as nat)
                &&& final(self).tenants@[i].0@ == old(self).tenants@[i].0@
                &&& forall|j: int| 0 <= j < old(self).tenants@.len() && j != i
                    ==> #[trigger] final(self).tenants@[j] == old(self).tenants@[j]
            },
    {
        let mut i: usize = 0;
        while i < self.tenants.len()
            invariant
                self.tenants@ == old(self).tenants@,
                limiter_wf(self.tenants@),
                i <= self.tenants@.len(),
                forall|j: int| 0 <= j < i ==> self.tenants@[j].0@ != tenant_id@,
            decreases self.tenants@.len() - i,
        {
            if str_is(self.tenants[i].0.as_str(), tenant_id) {
                let ghost before = self.tenants@;
                let admitted = self.tenants[i].1.try_take(now);
                assert(tenant_pos(before, tenant_id@, i as int));
                assert forall|k: int| tenant_pos(before, tenant_id@, k) implies k == i by {
                    if k < i {
                    } else if k > i {
                        assert(before[i as int].0@ == tenant_id@);
                    }
                }
                assert(limiter_wf(self.tenants@)) by {
                    assert forall|k: int| 0 <= k < self.tenants@.len() implies bucket_wf(#[trigger] self.tenants@[k].1@) by {
                        if k != i {
                            assert(self.tenants@[k] == before[k]);
                        }
                    }
                }
                if admitted {
                    return Ok(());
                } else {
                    return Err(LLMPoolError::RateLimitExceeded);
                }
            }
            i = i + 1;
        }
        Err(LLMPoolError::AuthError("unknown tenant".to_string()))
    }
}

} // verus!
