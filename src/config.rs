use vstd::prelude::*;
use crate::errors::LLMPoolError;

verus! {

/// Listener addresses and which transports are enabled.
pub struct ServerConfig {
    pub grpc_addr: String,
    pub http_addr: String,
    pub enable_grpc: bool,
    pub enable_http: bool,
}

/// Quality-of-service limits applied to each request.
pub struct QoSConfig {
    pub max_deadline_ms: i32,
    pub hedge_after_ms: i32,
    pub max_prompt_bytes: usize,
    pub max_tokens_default: i32,
}

/// Strategy selection: a global default and per-task overrides.
/// The per-task list is searched front to back; the first entry whose
/// task matches wins.
pub struct EnsembleConfig {
    pub default_strategy: String,
    pub strategy_by_task: Vec<(String, String)>,
}

/// Circuit breaker tuning. The failure-rate threshold is given in
/// thousandths (500 stands for a rate of one half).
pub struct BreakerConfig {
    pub fail_rate_permille: u32,
    pub window_size: usize,
    pub open_cooldown_ms: u64,
}

/// Response cache settings.
pub struct CacheConfig {
    pub enabled: bool,
    pub driver: String,
    pub ttl_seconds: u64,
    pub key_fields: Vec<String>,
}

/// One backend. The weight is given in thousandths (1000 stands for 1.0).
pub struct ProviderConfig {
    pub name: String,
    pub driver: String,
    pub base_url: String,
    pub model: String,
    pub tasks: Vec<String>,
    pub weight_milli: u32,
    pub timeout_ms: Option<i32>,
}

/// The arbitrating backend used by the judge strategy.
pub struct JudgeConfig {
    pub model_provider: Option<String>,
    pub max_tokens: i32,
    pub deadline_ms: i32,
    pub fallback_strategy: String,
}

/// Quota and credentials of one tenant.
pub struct TenantConfig {
    pub api_key: String,
    pub rate_limit_rps: u32,
    pub rate_limit_burst: u32,
}

/// The whole service configuration. Tenants are listed with their ids.
pub struct Config {
    pub server: ServerConfig,
    pub qos: QoSConfig,
    pub ensemble: EnsembleConfig,
    pub breaker: BreakerConfig,
    pub cache: CacheConfig,
    pub providers: Vec<ProviderConfig>,
    pub judge: JudgeConfig,
    pub tenancy: Vec<(String, TenantConfig)>,
}

pub fn default_grpc_addr() -> (r: String)
    ensures
        r@ == "0.0.0.0:7070"@,
{
    "0.0.0.0:7070".to_string()
}

pub fn default_http_addr() -> (r: String)
    ensures
        r@ == "0.0.0.0:7071"@,
{
    "0.0.0.0:7071".to_string()
}

pub fn default_true() -> (r: bool)
    ensures
        r,
{
    true
}

pub fn default_max_deadline() -> (r: i32)
    ensures
        r == 1500,
{
    1500
}

pub fn default_hedge_after() -> (r: i32)
    ensures
        r == 300,
{
    300
}

pub fn default_max_prompt_bytes() -> (r: usize)
    ensures
        r == 16384,
{
    16384
}

pub fn default_max_tokens() -> (r: i32)
    ensures
        r == 256,
{
    256
}

pub fn default_strategy() -> (r: String)
    ensures
        r@ == "FASTEST"@,
{
    "FASTEST".to_string()
}

/// A tenth, in thousandths.
pub fn default_fail_rate() -> (r: u32)
    ensures
        r == 100,
{
    100
}

pub fn default_window_size() -> (r: usize)
    ensures
        r == 50,
{
    50
}

pub fn default_cooldown() -> (r: u64)
    ensures
        r == 300000,
{
    300000
}

pub fn default_cache_driver() -> (r: String)
    ensures
        r@ == "memory"@,
{
    "memory".to_string()
}

pub fn default_ttl() -> (r: u64)
    ensures
        r == 900,
{
    900
}

/// A weight of 1.0, in thousandths.
pub fn default_weight() -> (r: u32)
    ensures
        r == 1000,
{
    1000
}

pub fn default_judge_max_tokens() -> (r: i32)
    ensures
        r == 128,
{
    128
}

pub fn default_judge_deadline() -> (r: i32)
    ensures
        r == 700,
{
    700
}

pub fn default_fallback_strategy() -> (r: String)
    ensures
        r@ == "VOTING"@,
{
    "VOTING".to_string()
}

impl Default for JudgeConfig {
    fn default() -> (r: JudgeConfig)
        ensures
            r.model_provider is None,
            r.max_tokens == 128,
            r.deadline_ms == 700,
            r.fallback_strategy@ == "VOTING"@,
    {
        JudgeConfig {
            model_provider: None,
            max_tokens: default_judge_max_tokens(),
            deadline_ms: default_judge_deadline(),
            fallback_strategy: default_fallback_strategy(),
        }
    }
}

/// A configuration is accepted when it names at least one provider and
/// its maximum deadline is positive.
pub open spec fn config_accepted(c: Config) -> bool {
    c.providers@.len() > 0 && c.qos.max_deadline_ms > 0
}

/// Checks a freshly read configuration.
pub fn validate(config: &Config) -> (r: Result<(), LLMPoolError>)
    ensures
        r is Ok <==> config_accepted(*config),
        r is Err ==> r->Err_0 is ConfigError,
{
    if config.providers.len() == 0 {
        return Err(LLMPoolError::ConfigError("No providers configured".to_string()));
    }
    if config.qos.max_deadline_ms <= 0 {
        return Err(LLMPoolError::ConfigError("max_deadline_ms must be positive".to_string()));
    }
    Ok(())
}

} // verus!
