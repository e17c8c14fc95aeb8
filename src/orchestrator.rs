use vstd::prelude::*;
use crate::breaker::{admission, after_attempt, breaker_wf, Admission, BreakerModel, BreakerState, CircuitBreaker};
use crate::cache::{fingerprint, Cache, CachedResponse, MAX_TTL_SECONDS};
use crate::config::{Config, QoSConfig};
use crate::ensemble::{EnsembleResult, Reply, Strategy, strategy_named, strategy_symbol};
use crate::errors::LLMPoolError;
use crate::providers::{lemma_supporting, supporting, ProviderPool, supports};
use crate::ratelimit::{
    bucket_wf, limiter_wf, took_from, tenant_admitted, tenant_known, BucketModel, RateLimiter, TenantBucket,
};
use crate::text::{str_is, upper_of};
use vstd::string::StringSliceAdditionalSpecFns;

verus! {

/// An inference request as it reaches the kernel.
pub struct InferRequest {
    pub request_id: String,
    pub tenant_id: String,
    pub project_id: String,
    pub task: String,
    pub prompt: String,
    pub max_tokens: i32,
    pub deadline_ms: i32,
    pub strategy: Option<String>,
}

/// The answer returned to the client, with its provenance.
pub struct InferResponse {
    pub request_id: String,
    pub content: String,
    pub winner_model: String,
    pub duration_ms: i32,
    pub from_cache: bool,
    pub strategy_used: String,
    pub models_queried: Vec<String>,
}

/// A request the kernel accepts: a positive deadline within the policy
/// bound, a non-empty prompt within the byte bound, a positive token budget.
pub open spec fn request_valid(qos: QoSConfig, req: InferRequest) -> bool {
    &&& 0 < req.deadline_ms <= qos.max_deadline_ms
    &&& 0 < req.prompt@.len()
    &&& vstd::utf8::encode_utf8(req.prompt@).len() <= qos.max_prompt_bytes
    &&& req.max_tokens > 0
}

/// Checks a request against the quality-of-service bounds.
pub fn validate(qos: &QoSConfig, req: &InferRequest) -> (r: Result<(), LLMPoolError>)
    ensures
        r is Ok <==> request_valid(*qos, *req),
        r is Err ==> r->Err_0 is InvalidQuery,
{
    if req.deadline_ms <= 0 || req.deadline_ms > qos.max_deadline_ms {
        return Err(LLMPoolError::InvalidQuery("deadline out of range".to_string()));
    }
    let p = req.prompt.as_str();
    let bytes = p.as_bytes();
    assert(bytes@ == vstd::utf8::encode_utf8(req.prompt@));
    if p.is_empty() || bytes.len() > qos.max_prompt_bytes {
        return Err(LLMPoolError::InvalidQuery("prompt size out of range".to_string()));
    }
    if req.max_tokens <= 0 {
        return Err(LLMPoolError::InvalidQuery("max_tokens must be positive".to_string()));
    }
    Ok(())
}

/// The strategy name configured for `task`: the first matching entry.
pub open spec fn task_strategy(pairs: Seq<(String, String)>, task: Seq<char>) -> Option<Seq<char>>
    decreases pairs.len(),
{
    if pairs.len() == 0 {
        None
    } else if pairs[0].0@ == task {
        Some(pairs[0].1@)
    } else {
        task_strategy(pairs.drop_first(), task)
    }
}

/// The strategy name of a request: its own, else the one configured for
/// its task, else the global default.
pub open spec fn resolved_name(
    requested: Option<Seq<char>>,
    pairs: Seq<(String, String)>,
    task: Seq<char>,
    default: Seq<char>,
) -> Seq<char> {
    match requested {
        Some(s) => s,
        None => match task_strategy(pairs, task) {
            Some(s) => s,
            None => default,
        },
    }
}

pub open spec fn opt_view(o: Option<String>) -> Option<Seq<char>> {
    match o {
        Some(s) => Some(s@),
        None => None,
    }
}

/// Resolves the strategy name of a request.
pub fn resolve_strategy_name(
    requested: &Option<String>,
    by_task: &Vec<(String, String)>,
    task: &str,
    default: &String,
) -> (r: String)
    ensures
        r@ == resolved_name(
            opt_view(*requested),
            by_task@,
            task@,
            default@,
        ),
{
    match requested {
        Some(s) => s.clone(),
        None => {
            assert(by_task@.subrange(0, by_task@.len() as int) =~= by_task@);
            let mut i: usize = 0;
            while i < by_task.len()
                invariant
                    *requested is None,
                    i <= by_task@.len(),
                    task_strategy(by_task@, task@) == task_strategy(by_task@.subrange(i as int, by_task@.len() as int), task@),
                decreases by_task@.len() - i,
            {
                let ghost rest = by_task@.subrange(i as int, by_task@.len() as int);
                assert(rest.drop_first() =~= by_task@.subrange(i + 1, by_task@.len() as int));
                assert(rest[0] == by_task@[i as int]);
                if str_is(by_task[i].0.as_str(), task) {
                    assert(task_strategy(rest, task@) == Some(by_task@[i as int].1@));
                    return by_task[i].1.clone();
                }
                i = i + 1;
            }
            default.clone()
        },
    }
}

/// The time left of a deadline after `elapsed_ms`, never below zero.
pub open spec fn remaining(deadline_ms: i32, elapsed_ms: u64) -> i32 {
    if elapsed_ms >= deadline_ms { 0 } else { (deadline_ms - elapsed_ms) as i32 }
}

/// The deadline handed on after `elapsed_ms` have gone by.
pub fn remaining_deadline(deadline_ms: i32, elapsed_ms: u64) -> (r: i32)
    ensures
        r == remaining(deadline_ms, elapsed_ms),
        0 <= r,
        r <= deadline_ms || deadline_ms < 0,
{
    if deadline_ms <= 0 || elapsed_ms >= deadline_ms as u64 {
        0
    } else {
        (deadline_ms as u64 - elapsed_ms) as i32
    }
}

/// An elapsed time reported as milliseconds, held at the largest `i32`.
pub open spec fn clamp_ms(ms: u64) -> i32 {
    if ms > i32::MAX { i32::MAX } else { ms as i32 }
}

/// The response built from a cache hit.
pub fn cache_hit_response(req: &InferRequest, cached: CachedResponse) -> (r: InferResponse)
    ensures
        r.request_id@ == req.request_id@,
        r.content@ == cached.content@,
        r.winner_model@ == cached.model@,
        r.duration_ms == 0,
        r.from_cache,
        r.strategy_used@ == "CACHE"@,
        r.models_queried@.len() == 0,
{
    InferResponse {
        request_id: req.request_id.clone(),
        content: cached.content,
        winner_model: cached.model,
        duration_ms: 0,
        from_cache: true,
        strategy_used: "CACHE".to_string(),
        models_queried: Vec::new(),
    }
}

/// The response built from the winner of a strategy.
pub fn ensemble_response(
    req: &InferRequest,
    strategy_name: &String,
    result: EnsembleResult,
    elapsed_ms: u64,
) -> (r: InferResponse)
    ensures
        r.request_id@ == req.request_id@,
        r.content@ == result.response.content@,
        r.winner_model@ == result.winner_model@,
        r.duration_ms == clamp_ms(elapsed_ms),
        !r.from_cache,
        r.strategy_used@ == strategy_name@,
        r.models_queried@ == result.models_queried@,
{
    InferResponse {
        request_id: req.request_id.clone(),
        content: result.response.content,
        winner_model: result.winner_model,
        duration_ms: if elapsed_ms > i32::MAX as u64 { i32::MAX } else { elapsed_ms as i32 },
        from_cache: false,
        strategy_used: strategy_name.clone(),
        models_queried: result.models_queried,
    }
}

/// The replies a fan-out gathered, or `DeadlineExceeded` when the deadline
/// passed before any backend answered and some were still running.
pub fn gathered(replies: Vec<Reply>, all_ended: bool, deadline_ms: i32) -> (r: Result<Vec<Reply>, LLMPoolError>)
    ensures
        replies@.len() == 0 && !all_ended ==> (r matches Err(LLMPoolError::DeadlineExceeded(d)) && d == deadline_ms),
        replies@.len() > 0 || all_ended ==> (r matches Ok(v) && v@ == replies@),
{
    if replies.len() == 0 && !all_ended {
        Err(LLMPoolError::DeadlineExceeded(deadline_ms))
    } else {
        Ok(replies)
    }
}

/// The error of a lost race: the first one a backend reported, or
/// `DeadlineExceeded` when none had ended.
pub fn give_up_error(first_error: Option<LLMPoolError>, deadline_ms: i32) -> (r: LLMPoolError)
    ensures
        first_error is None ==> r == LLMPoolError::DeadlineExceeded(deadline_ms),
        first_error matches Some(e) ==> r == e,
{
    match first_error {
        Some(e) => e,
        None => LLMPoolError::DeadlineExceeded(deadline_ms),
    }
}

/// The backends that a request will run on, and how.
pub struct RunPlan {
    pub strategy: Strategy,
    pub strategy_name: String,
    /// Pool positions, in configuration order.
    pub providers: Vec<usize>,
    pub names: Vec<String>,
    pub weights: Vec<u32>,
    /// The deadline left for the strategy.
    pub budget_ms: i32,
}

/// Where a request goes after admission: straight back from the cache, or
/// on to the backends.
pub enum Plan {
    Cached(InferResponse),
    Run(RunPlan),
}

/// The request pipeline: tenant quotas, validation, cache, backend
/// selection and health gating, strategy choice.
pub struct Orchestrator {
    pub config: Config,
    pub pool: ProviderPool,
    pub cache: Cache,
    pub limiter: RateLimiter,
    /// One breaker per pool position.
    pub breakers: Vec<CircuitBreaker>,
}

pub open spec fn breakers_wf(bs: Seq<CircuitBreaker>) -> bool {
    forall|i: int| 0 <= i < bs.len() ==> breaker_wf(#[trigger] bs[i]@)
}

pub open spec fn orchestrator_wf(o: Orchestrator) -> bool {
    &&& limiter_wf(o.limiter.tenants@)
    &&& breakers_wf(o.breakers@)
    &&& o.breakers@.len() == o.pool.spec_entries().len()
}

/// The candidates, in order, whose breaker admits a call at `now`.
pub open spec fn admitted_of(bs: Seq<CircuitBreaker>, cands: Seq<usize>, now: u64) -> Seq<usize>
    decreases cands.len(),
{
    if cands.len() == 0 {
        Seq::empty()
    } else {
        let r = admitted_of(bs, cands.drop_last(), now);
        if admission(bs[cands.last() as int]@, now) == Admission::Admit {
            r.push(cands.last())
        } else {
            r
        }
    }
}

/// `new_bs` is `old_bs` after each candidate's breaker was asked once at
/// `now`.
pub open spec fn asked(old_bs: Seq<CircuitBreaker>, new_bs: Seq<CircuitBreaker>, cands: Seq<usize>, now: u64) -> bool {
    &&& new_bs.len() == old_bs.len()
    &&& forall|p: int| 0 <= p < old_bs.len() ==> #[trigger] new_bs[p]@ == if cands.contains(p as usize) {
        after_attempt(old_bs[p]@, now)
    } else {
        old_bs[p]@
    }
}

/// The breakers are as they were.
pub open spec fn unasked(old_bs: Seq<CircuitBreaker>, new_bs: Seq<CircuitBreaker>) -> bool {
    &&& new_bs.len() == old_bs.len()
    &&& forall|p: int| 0 <= p < old_bs.len() ==> #[trigger] new_bs[p]@ == old_bs[p]@
}

pub open spec fn is_cached(r: Result<Plan, LLMPoolError>) -> bool {
    r matches Ok(Plan::Cached(_))
}

pub open spec fn is_error_text(r: Result<Plan, LLMPoolError>, text: Seq<char>) -> bool {
    r matches Err(LLMPoolError::EnsembleError(m)) && m@ == text
}

/// A fresh breaker with the configured tuning.
pub open spec fn fresh_breaker(m: BreakerModel, c: crate::config::BreakerConfig) -> bool {
    &&& m.fail_rate_permille == c.fail_rate_permille
    &&& m.window_size == c.window_size
    &&& m.cooldown_ms == c.open_cooldown_ms
    &&& m.state == BreakerState::Closed
    &&& m.window.len() == 0
}

/// A full bucket for tenant settings `t`, last refilled at `now`.
pub open spec fn fresh_bucket(m: BucketModel, t: crate::config::TenantConfig, now: u64) -> bool {
    m == (BucketModel {
        rate_rps: t.rate_limit_rps as nat,
        burst: t.rate_limit_burst as nat,
        level_milli: t.rate_limit_burst as nat * 1000,
        last_ms: now as nat,
    })
}

impl Orchestrator {
    /// Puts the pipeline together: a cache per the configuration, one
    /// closed breaker per backend, a bucket per tenant filled at `now_ms`.
    pub fn new(config: Config, pool: ProviderPool, now_ms: u64) -> (r: Result<Orchestrator, LLMPoolError>)
        ensures
            r is Ok <==> (config.cache.ttl_seconds <= MAX_TTL_SECONDS
                && 0 < config.breaker.fail_rate_permille <= 1000 && config.breaker.window_size > 0),
            r matches Ok(o) ==> {
                &&& orchestrator_wf(o)
                &&& o.config == config
                &&& o.pool == pool
                &&& forall|k: Seq<char>| !#[trigger] o.cache.entries().contains_key(k)
                &&& forall|i: int| 0 <= i < o.breakers@.len() ==> fresh_breaker(#[trigger] o.breakers@[i]@, config.breaker)
                &&& o.limiter.tenants@.len() == config.tenancy@.len()
                &&& forall|k: int| 0 <= k < config.tenancy@.len() ==> #[trigger] o.limiter.tenants@[k].0@ == config.tenancy@[k].0@
                    && fresh_bucket(o.limiter.tenants@[k].1@, config.tenancy@[k].1, now_ms)
            },
            r is Err ==> r->Err_0 is ConfigError,
    {
        if config.cache.ttl_seconds > MAX_TTL_SECONDS {
            return Err(LLMPoolError::ConfigError("cache ttl too long".to_string()));
        }
        let fr = config.breaker.fail_rate_permille;
        let ws = config.breaker.window_size;
        if fr == 0 || fr > 1000 || ws == 0 {
            return Err(LLMPoolError::ConfigError("invalid breaker settings".to_string()));
        }
        let cache = Cache::new(config.cache.ttl_seconds, 10000);
        let mut breakers: Vec<CircuitBreaker> = Vec::new();
        let mut i: usize = 0;
        while i < pool.len()
            invariant
                fr == config.breaker.fail_rate_permille,
                ws == config.breaker.window_size,
                0 < fr <= 1000,
                ws > 0,
                i <= pool.spec_entries().len(),
                breakers@.len() == i,
                breakers_wf(breakers@),
                forall|j: int| 0 <= j < i ==> fresh_breaker(#[trigger] breakers@[j]@, config.breaker),
            decreases pool.spec_entries().len() - i,
        {
            breakers.push(CircuitBreaker::new(fr, ws, config.breaker.open_cooldown_ms));
            i = i + 1;
        }
        let mut tenants: Vec<(String, TenantBucket)> = Vec::new();
        let mut k: usize = 0;
        while k < config.tenancy.len()
            invariant
                k <= config.tenancy@.len(),
                tenants@.len() == k,
                limiter_wf(tenants@),
                forall|j: int| 0 <= j < k ==> #[trigger] tenants@[j].0@ == config.tenancy@[j].0@
                    && fresh_bucket(tenants@[j].1@, config.tenancy@[j].1, now_ms),
            decreases config.tenancy@.len() - k,
        {
            let t = &config.tenancy[k].1;
            tenants.push((config.tenancy[k].0.clone(), TenantBucket::new(t.rate_limit_rps, t.rate_limit_burst, now_ms)));
            k = k + 1;
        }
        Ok(Orchestrator { config, pool, cache, limiter: RateLimiter { tenants }, breakers })
    }

    /// Asks each candidate's breaker in turn and keeps the admitted ones.
    fn admitted(&mut self, candidates: &Vec<usize>, now_ms: u64) -> (r: Vec<usize>)
        requires
            orchestrator_wf(*old(self)),
            forall|k: int| 0 <= k < candidates@.len() ==> #[trigger] candidates@[k] < old(self).breakers@.len(),
            forall|a: int, b: int| 0 <= a < b < candidates@.len() ==> candidates@[a] < candidates@[b],
        ensures
            orchestrator_wf(*final(self)),
            final(self).pool == old(self).pool,
            final(self).config == old(self).config,
            final(self).cache == old(self).cache,
            final(self).limiter == old(self).limiter,
            r@ == admitted_of(old(self).breakers@, candidates@, now_ms),
            asked(old(self).breakers@, final(self).breakers@, candidates@, now_ms),
    {
        let ghost ob = self.breakers@;
        let n0 = self.breakers.len();
        let mut r: Vec<usize> = Vec::new();
        let mut k: usize = 0;
        while k < candidates.len()
            invariant
                orchestrator_wf(*self),
                ob == old(self).breakers@,
                ob.len() == n0,
                self.pool == old(self).pool,
                self.config == old(self).config,
                self.cache == old(self).cache,
                self.limiter == old(self).limiter,
                forall|m: int| 0 <= m < candidates@.len() ==> #[trigger] candidates@[m] < ob.len(),
                forall|a: int, b: int| 0 <= a < b < candidates@.len() ==> candidates@[a] < candidates@[b],
                k <= candidates@.len(),
                r@ == admitted_of(ob, candidates@.subrange(0, k as int), now_ms),
                asked(ob, self.breakers@, candidates@.subrange(0, k as int), now_ms),
            decreases candidates@.len() - k,
        {
            let p = candidates[k];
            let ghost before = self.breakers@;
            let ghost pre = candidates@.subrange(0, k as int);
            let ghost post = candidates@.subrange(0, k + 1);
            assert(post.drop_last() =~= pre);
            assert(!pre.contains(p)) by {
                if pre.contains(p) {
                    let j = choose|j: int| 0 <= j < pre.len() && pre[j] == p;
                    assert(candidates@[j] < candidates@[k as int]);
                }
            }
            assert(before[p as int]@ == ob[p as int]@);
            let mut b = self.breakers.remove(p);
            let a = b.may_attempt(now_ms);
            self.breakers.insert(p, b);
            assert(self.breakers@ =~= before.update(p as int, b));
            assert forall|q: int| 0 <= q < ob.len() implies #[trigger] self.breakers@[q]@ == if post.contains(q as usize) {
                after_attempt(ob[q]@, now_ms)
            } else {
                ob[q]@
            } by {
                if q == p {
                    assert(post[k as int] == p);
                } else {
                    assert(q as usize != p);
                    assert(post.contains(q as usize) == pre.contains(q as usize)) by {
                        if post.contains(q as usize) {
                            let j = choose|j: int| 0 <= j < post.len() && post[j] == q as usize;
                            assert(j != k as int);
                            assert(pre[j] == q as usize);
                        }
                        if pre.contains(q as usize) {
                            let j = choose|j: int| 0 <= j < pre.len() && pre[j] == q as usize;
                            assert(post[j] == q as usize);
                        }
                    }
                }
            }
            assert forall|i: int| 0 <= i < self.breakers@.len() implies breaker_wf(#[trigger] self.breakers@[i]@) by {
                if i != p {
                    assert(self.breakers@[i] == before[i]);
                }
            }
            if a == Admission::Admit {
                r.push(p);
            }
            k = k + 1;
        }
        assert(candidates@.subrange(0, k as int) =~= candidates@);
        r
    }

    /// Runs a request through admission: quota, validation, cache probe,
    /// backend selection with breakers, strategy choice. `now_ms` is the
    /// clock at entry and `elapsed_ms` the time spent so far.
    pub fn begin(&mut self, req: &InferRequest, now_ms: u64, elapsed_ms: u64) -> (r: Result<Plan, LLMPoolError>)
        requires
            orchestrator_wf(*old(self)),
        ensures
            orchestrator_wf(*final(self)),
            final(self).pool == old(self).pool,
            final(self).config == old(self).config,
            final(self).cache == old(self).cache,
            took_from(old(self).limiter.tenants@, final(self).limiter.tenants@, req.tenant_id@, now_ms),
            !tenant_known(old(self).limiter.tenants@, req.tenant_id@) ==> r matches Err(LLMPoolError::AuthError(_)),
            tenant_known(old(self).limiter.tenants@, req.tenant_id@)
                && !tenant_admitted(old(self).limiter.tenants@, req.tenant_id@, now_ms)
                ==> r matches Err(LLMPoolError::RateLimitExceeded),
            tenant_admitted(old(self).limiter.tenants@, req.tenant_id@, now_ms) && !request_valid(old(self).config.qos, *req)
                ==> r matches Err(LLMPoolError::InvalidQuery(_)),
            r is Ok ==> tenant_admitted(old(self).limiter.tenants@, req.tenant_id@, now_ms)
                && request_valid(old(self).config.qos, *req),
            is_cached(r) || !(tenant_admitted(old(self).limiter.tenants@, req.tenant_id@, now_ms)
                && request_valid(old(self).config.qos, *req)) ==> unasked(old(self).breakers@, final(self).breakers@),
            r matches Ok(Plan::Cached(resp)) ==> {
                let fp = fingerprint(vstd::utf8::encode_utf8(req.task@), vstd::utf8::encode_utf8(req.prompt@), req.max_tokens);
                &&& old(self).config.cache.enabled
                &&& old(self).cache.entries().contains_key(fp)
                &&& old(self).cache.entries()[fp] == (resp.content@, resp.winner_model@)
                &&& resp.from_cache && resp.duration_ms == 0 && resp.models_queried@.len() == 0
                &&& resp.strategy_used@ == "CACHE"@ && resp.request_id@ == req.request_id@
            },
            tenant_admitted(old(self).limiter.tenants@, req.tenant_id@, now_ms) && request_valid(old(self).config.qos, *req)
                && !is_cached(r) ==> {
                let cands = supporting(old(self).pool.spec_entries(), req.task@);
                let adm = admitted_of(old(self).breakers@, cands, now_ms);
                &&& asked(old(self).breakers@, final(self).breakers@, cands, now_ms)
                &&& cands.len() == 0 ==> is_error_text(r, "no providers for task"@)
                &&& cands.len() > 0 && adm.len() == 0 ==> is_error_text(r, "all providers breaker-open"@)
                &&& adm.len() > 0 ==> r is Ok
                &&& r matches Ok(Plan::Run(p)) ==> {
                    &&& p.providers@ == adm
                    &&& p.strategy == strategy_named(upper_of(p.strategy_name@))
                    &&& p.strategy_name@ == resolved_name(
                        opt_view(req.strategy),
                        old(self).config.ensemble.strategy_by_task@,
                        req.task@,
                        old(self).config.ensemble.default_strategy@,
                    )
                    &&& p.budget_ms == remaining(req.deadline_ms, elapsed_ms)
                    &&& p.names@.len() == p.providers@.len()
                    &&& p.weights@.len() == p.providers@.len()
                    &&& forall|k: int| #![trigger p.providers@[k]] 0 <= k < p.providers@.len() ==> {
                        &&& p.providers@[k] < old(self).pool.spec_entries().len()
                        &&& supports(old(self).pool.spec_entries()[p.providers@[k] as int], req.task@)
                        &&& p.names@[k]@ == old(self).pool.spec_entries()[p.providers@[k] as int].name@
                        &&& p.weights@[k] == old(self).pool.spec_entries()[p.providers@[k] as int].weight_milli
                    }
                }
            },
    {
        match self.limiter.check(req.tenant_id.as_str(), now_ms) {
            Ok(()) => {},
            Err(e) => {
                return Err(e);
            },
        }
        match validate(&self.config.qos, req) {
            Ok(()) => {},
            Err(e) => {
                return Err(e);
            },
        }
        if self.config.cache.enabled {
            match self.cache.get(req.task.as_str(), req.prompt.as_str(), req.max_tokens) {
                Some(hit) => {
                    return Ok(Plan::Cached(cache_hit_response(req, hit)));
                },
                None => {},
            }
        }
        let candidates = self.pool.providers_for_task(req.task.as_str());
        if candidates.len() == 0 {
            return Err(LLMPoolError::EnsembleError("no providers for task".to_string()));
        }
        let providers = self.admitted(&candidates, now_ms);
        if providers.len() == 0 {
            return Err(LLMPoolError::EnsembleError("all providers breaker-open".to_string()));
        }
        proof {
            lemma_admitted_in(old(self).breakers@, candidates@, now_ms);
        }
        let mut names: Vec<String> = Vec::new();
        let mut weights: Vec<u32> = Vec::new();
        let mut k: usize = 0;
        while k < providers.len()
            invariant
                self.pool == old(self).pool,
                providers@.len() > 0,
                forall|m: int| 0 <= m < providers@.len() ==> #[trigger] providers@[m] < self.pool.spec_entries().len()
                    && supports(self.pool.spec_entries()[providers@[m] as int], req.task@),
                k <= providers@.len(),
                names@.len() == k,
                weights@.len() == k,
                forall|m: int| #![trigger providers@[m]] 0 <= m < k ==> names@[m]@ == self.pool.spec_entries()[providers@[m] as int].name@
                    && weights@[m] == self.pool.spec_entries()[providers@[m] as int].weight_milli,
            decreases providers@.len() - k,
        {
            let e = self.pool.entry(providers[k]);
            names.push(e.name.clone());
            weights.push(e.weight_milli);
            k = k + 1;
        }
        let name = resolve_strategy_name(
            &req.strategy,
            &self.config.ensemble.strategy_by_task,
            req.task.as_str(),
            &self.config.ensemble.default_strategy,
        );
        let strategy = Strategy::from_str(name.as_str());
        let budget_ms = remaining_deadline(req.deadline_ms, elapsed_ms);
        Ok(Plan::Run(RunPlan { strategy, strategy_name: name, providers, names, weights, budget_ms }))
    }

    /// Reports the outcome of a call to the backend at pool position
    /// `provider`. Cancelled calls are not reported.
    pub fn record_outcome(&mut self, provider: usize, success: bool, now_ms: u64)
        requires
            orchestrator_wf(*old(self)),
            provider < old(self).breakers@.len(),
        ensures
            orchestrator_wf(*final(self)),
            final(self).pool == old(self).pool,
            final(self).config == old(self).config,
            final(self).cache == old(self).cache,
            final(self).limiter == old(self).limiter,
            final(self).breakers@.len() == old(self).breakers@.len(),
            final(self).breakers@[provider as int]@ == crate::breaker::after_record(
                old(self).breakers@[provider as int]@, success, now_ms),
            forall|q: int| 0 <= q < old(self).breakers@.len() && q != provider
                ==> #[trigger] final(self).breakers@[q] == old(self).breakers@[q],
    {
        let ghost before = self.breakers@;
        let mut b = self.breakers.remove(provider);
        b.record(success, now_ms);
        self.breakers.insert(provider, b);
        assert(self.breakers@ =~= before.update(provider as int, b));
        assert forall|i: int| 0 <= i < self.breakers@.len() implies breaker_wf(#[trigger] self.breakers@[i]@) by {
            if i != provider {
                assert(self.breakers@[i] == before[i]);
            }
        }
    }

    /// Completes a request whose strategy ran: memoizes the winner when the
    /// cache is on, and builds the response, which reports the symbol of
    /// the strategy that ran.
    pub fn finish(
        &mut self,
        req: &InferRequest,
        plan: &RunPlan,
        outcome: Result<EnsembleResult, LLMPoolError>,
        elapsed_ms: u64,
    ) -> (r: Result<InferResponse, LLMPoolError>)
        ensures
            final(self).pool == old(self).pool,
            final(self).config == old(self).config,
            final(self).breakers == old(self).breakers,
            final(self).limiter == old(self).limiter,
            outcome matches Err(e) ==> r matches Err(e2) && e2 == e && final(self).cache == old(self).cache,
            outcome matches Ok(res) ==> r matches Ok(resp) && !resp.from_cache
                && resp.request_id@ == req.request_id@
                && resp.content@ == res.response.content@ && resp.winner_model@ == res.winner_model@
                && resp.models_queried@ == res.models_queried@
                && resp.strategy_used@ == strategy_symbol(plan.strategy)
                && resp.duration_ms == clamp_ms(elapsed_ms),
            outcome is Ok && old(self).config.cache.enabled ==> final(self).cache.entries()
                == old(self).cache.entries().insert(
                    fingerprint(vstd::utf8::encode_utf8(req.task@), vstd::utf8::encode_utf8(req.prompt@), req.max_tokens),
                    (outcome->Ok_0.response.content@, outcome->Ok_0.winner_model@),
                ),
            outcome is Ok && !old(self).config.cache.enabled ==> final(self).cache == old(self).cache,
    {
        match outcome {
            Ok(res) => {
                if self.config.cache.enabled {
                    self.cache.set(
                        req.task.as_str(),
                        req.prompt.as_str(),
                        req.max_tokens,
                        res.response.content.as_str(),
                        res.winner_model.as_str(),
                    );
                }
                let symbol = plan.strategy.symbol();
                Ok(ensemble_response(req, &symbol, res, elapsed_ms))
            },
            Err(e) => Err(e),
        }
    }
}

/// Every admitted candidate is one of the candidates.
proof fn lemma_admitted_in(bs: Seq<CircuitBreaker>, cands: Seq<usize>, now: u64)
    ensures
        forall|k: int| 0 <= k < admitted_of(bs, cands, now).len()
            ==> cands.contains(#[trigger] admitted_of(bs, cands, now)[k]),
    decreases cands.len(),
{
    if cands.len() > 0 {
        let d = cands.drop_last();
        lemma_admitted_in(bs, d, now);
        let r = admitted_of(bs, d, now);
        assert forall|k: int| 0 <= k < admitted_of(bs, cands, now).len()
            implies cands.contains(#[trigger] admitted_of(bs, cands, now)[k]) by {
            if k < r.len() {
                assert(admitted_of(bs, cands, now)[k] == r[k]);
                let j = choose|j: int| 0 <= j < d.len() && d[j] == r[k];
                assert(cands[j] == d[j]);
            } else {
                assert(cands[cands.len() - 1] == cands.last());
            }
        }
    }
}

} // verus!
