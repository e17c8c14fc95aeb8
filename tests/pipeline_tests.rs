use llm_pool::cache::{hex_key, key_input, make_key, Cache};
use llm_pool::config::{
    default_fallback_strategy, default_max_deadline, default_strategy, default_ttl, validate as validate_config,
    BreakerConfig, CacheConfig, Config, EnsembleConfig, JudgeConfig, ProviderConfig, QoSConfig, ServerConfig,
    TenantConfig,
};
use llm_pool::ensemble::{select, Reply, Strategy};
use llm_pool::errors::{LLMPoolError, StatusKind};
use llm_pool::orchestrator::{
    cache_hit_response, gathered, give_up_error, remaining_deadline, resolve_strategy_name, validate, InferRequest, Orchestrator, Plan,
};
use llm_pool::providers::{init, ProviderResponse};

fn provider(name: &str, driver: &str, tasks: &[&str]) -> ProviderConfig {
    ProviderConfig {
        name: name.to_string(),
        driver: driver.to_string(),
        base_url: "http://localhost:11434".to_string(),
        model: format!("{}-model", name),
        tasks: tasks.iter().map(|t| t.to_string()).collect(),
        weight_milli: 1000,
        timeout_ms: None,
    }
}

fn config(providers: Vec<ProviderConfig>) -> Config {
    Config {
        server: ServerConfig {
            grpc_addr: "0.0.0.0:7070".to_string(),
            http_addr: "0.0.0.0:7071".to_string(),
            enable_grpc: true,
            enable_http: true,
        },
        qos: QoSConfig { max_deadline_ms: 1500, hedge_after_ms: 100, max_prompt_bytes: 64, max_tokens_default: 256 },
        ensemble: EnsembleConfig {
            default_strategy: "FASTEST".to_string(),
            strategy_by_task: vec![("judge".to_string(), "VOTING".to_string())],
        },
        breaker: BreakerConfig { fail_rate_permille: 500, window_size: 4, open_cooldown_ms: 200 },
        cache: CacheConfig { enabled: true, driver: "memory".to_string(), ttl_seconds: 900, key_fields: vec![] },
        providers,
        judge: JudgeConfig::default(),
        tenancy: vec![(
            "t1".to_string(),
            TenantConfig { api_key: "SECRET-REDACTED".to_string(), rate_limit_rps: 10, rate_limit_burst: 10 },
        )],
    }
}

fn request(prompt: &str, max_tokens: i32, deadline_ms: i32) -> InferRequest {
    InferRequest {
        request_id: "r1".to_string(),
        tenant_id: "t1".to_string(),
        project_id: String::new(),
        task: "expand_queries".to_string(),
        prompt: prompt.to_string(),
        max_tokens,
        deadline_ms,
        strategy: None,
    }
}

#[test]
fn defaults() {
    assert_eq!(default_max_deadline(), 1500);
    assert_eq!(default_strategy(), "FASTEST");
    assert_eq!(default_fallback_strategy(), "VOTING");
    assert_eq!(default_ttl(), 900);
    let j = JudgeConfig::default();
    assert_eq!(j.max_tokens, 128);
    assert_eq!(j.deadline_ms, 700);
}

#[test]
fn config_validation() {
    assert!(validate_config(&config(vec![provider("A", "ollama", &["judge"])])).is_ok());
    assert!(matches!(validate_config(&config(vec![])), Err(LLMPoolError::ConfigError(_))));
    let mut c = config(vec![provider("A", "ollama", &["judge"])]);
    c.qos.max_deadline_ms = 0;
    assert!(validate_config(&c).is_err());
}

#[test]
fn status_kinds() {
    assert_eq!(LLMPoolError::InvalidQuery(String::new()).status_kind(), StatusKind::InvalidArgument);
    assert_eq!(LLMPoolError::DeadlineExceeded(200).status_kind(), StatusKind::DeadlineExceeded);
    assert_eq!(LLMPoolError::AuthError(String::new()).status_kind(), StatusKind::Unauthenticated);
    assert_eq!(LLMPoolError::RateLimitExceeded.status_kind(), StatusKind::ResourceExhausted);
    assert_eq!(LLMPoolError::CircuitBreakerOpen("A".to_string()).status_kind(), StatusKind::Internal);
    assert_eq!(LLMPoolError::EnsembleError("no majority".to_string()).status_kind(), StatusKind::Internal);
}

#[test]
fn pool_keeps_order_and_skips_unknown_drivers() {
    let pool = match init(&vec![
        provider("A", "ollama", &["expand_queries", "judge"]),
        provider("X", "other", &["expand_queries"]),
        provider("B", "ollama", &["judge"]),
        provider("C", "ollama", &["expand_queries"]),
    ]) {
        Ok(p) => p,
        Err(_) => panic!("pool"),
    };
    assert_eq!(pool.names(), vec!["A".to_string(), "B".to_string(), "C".to_string()]);
    assert_eq!(pool.providers_for_task("expand_queries"), vec![0, 2]);
    assert_eq!(pool.providers_for_task("judge"), vec![0, 1]);
    assert!(pool.providers_for_task("unknown").is_empty());
    assert_eq!(pool.get("B"), Some(1));
    assert_eq!(pool.get("X"), None);
    assert_eq!(pool.entry(2).config_index, 3);
}

#[test]
fn pool_rejects_duplicate_names() {
    let r = init(&vec![provider("A", "ollama", &["judge"]), provider("A", "ollama", &["judge"])]);
    assert!(matches!(r, Err(LLMPoolError::ConfigError(_))));
}

#[test]
fn fingerprint_is_hex_sha256_of_parts() {
    assert_eq!(key_input("ab", "cd", -64), b"abcd-64".to_vec());
    assert_eq!(hex_key(&vec![0x0f, 0xa0]), "0fa0");
    assert_eq!(make_key("", "", 0), "5feceb66ffc86f38d952786c6d696c79c2dbc239dd4e91b46729d73a27fb57e9");
    assert_eq!(make_key("expand_queries", "hello world", 64), make_key("expand_queries", "hello world", 64));
    assert_ne!(make_key("expand_queries", "hello world", 64), make_key("expand_queries", "hello world", 65));
}

#[test]
fn cache_round_trip() {
    let mut c = Cache::new(900, 100);
    assert!(c.get("expand_queries", "hello world", 64).is_none());
    c.set("expand_queries", "hello world", 64, "X", "A");
    let hit = c.get("expand_queries", "hello world", 64).expect("hit");
    assert_eq!(hit.content, "X");
    assert_eq!(hit.model, "A");
    let resp = cache_hit_response(&request("hello world", 64, 1000), hit);
    assert!(resp.from_cache);
    assert_eq!(resp.duration_ms, 0);
    assert_eq!(resp.strategy_used, "CACHE");
    assert!(resp.models_queried.is_empty());
}

#[test]
fn request_validation() {
    let qos = QoSConfig { max_deadline_ms: 1500, hedge_after_ms: 100, max_prompt_bytes: 5, max_tokens_default: 256 };
    assert!(validate(&qos, &request("hello", 64, 1000)).is_ok());
    assert!(matches!(validate(&qos, &request("hello!", 64, 1000)), Err(LLMPoolError::InvalidQuery(_))));
    assert!(validate(&qos, &request("", 64, 1000)).is_err());
    assert!(validate(&qos, &request("hi", 0, 1000)).is_err());
    assert!(validate(&qos, &request("hi", 64, 0)).is_err());
    assert!(validate(&qos, &request("hi", 64, 1501)).is_err());
}

#[test]
fn strategy_resolution_order() {
    let by_task = vec![("judge".to_string(), "VOTING".to_string())];
    let d = "FASTEST".to_string();
    assert_eq!(resolve_strategy_name(&Some("consensus".to_string()), &by_task, "judge", &d), "consensus");
    assert_eq!(resolve_strategy_name(&None, &by_task, "judge", &d), "VOTING");
    assert_eq!(resolve_strategy_name(&None, &by_task, "site_tactics", &d), "FASTEST");
}

#[test]
fn deadline_budget() {
    assert_eq!(remaining_deadline(200, 50), 150);
    assert_eq!(remaining_deadline(200, 250), 0);
}

#[test]
fn cache_hit_scenario_end_to_end() {
    let cfg = config(vec![provider("A", "ollama", &["expand_queries"])]);
    let pool = init(&cfg.providers).ok().expect("pool");
    let mut o = Orchestrator::new(cfg, pool, 0).ok().expect("orchestrator");
    let req = request("hello world", 64, 1000);
    let plan = match o.begin(&req, 0, 0) {
        Ok(Plan::Run(p)) => p,
        _ => panic!("expected a run"),
    };
    assert_eq!(plan.providers, vec![0]);
    assert_eq!(plan.strategy, Strategy::Fastest);
    assert_eq!(plan.budget_ms, 1000);
    let replies = vec![Reply {
        source: 0,
        response: ProviderResponse { content: "X".to_string(), model: "A-model".to_string(), duration_ms: 20 },
    }];
    let result = select(plan.strategy, &plan.names, &plan.weights, &replies);
    let first = o.finish(&req, &plan, result, 25).ok().expect("response");
    assert_eq!(first.content, "X");
    assert_eq!(first.winner_model, "A");
    assert!(!first.from_cache);
    assert_eq!(first.duration_ms, 25);
    assert!(first.models_queried.contains(&first.winner_model));
    assert_eq!(first.strategy_used, "FASTEST");
    match o.begin(&req, 10, 0) {
        Ok(Plan::Cached(r)) => {
            assert_eq!(r.content, "X");
            assert!(r.from_cache);
            assert_eq!(r.duration_ms, 0);
            assert!(r.models_queried.is_empty());
        }
        _ => panic!("expected a cache hit"),
    }
}

#[test]
fn breaker_excludes_open_provider_from_plan() {
    let cfg = config(vec![
        provider("A", "ollama", &["expand_queries"]),
        provider("B", "ollama", &["expand_queries"]),
    ]);
    let pool = init(&cfg.providers).ok().expect("pool");
    let mut o = Orchestrator::new(cfg, pool, 0).ok().expect("orchestrator");
    for t in 0..4u64 {
        o.record_outcome(0, t % 2 == 0, t);
    }
    let req = request("other prompt", 64, 1000);
    match o.begin(&req, 50, 0) {
        Ok(Plan::Run(p)) => {
            assert_eq!(p.providers, vec![1]);
            assert_eq!(p.names, vec!["B".to_string()]);
        }
        _ => panic!("expected a run"),
    }
}

#[test]
fn unknown_tenant_and_invalid_request_are_refused() {
    let cfg = config(vec![provider("A", "ollama", &["expand_queries"])]);
    let pool = init(&cfg.providers).ok().expect("pool");
    let mut o = Orchestrator::new(cfg, pool, 0).ok().expect("orchestrator");
    let mut req = request("hello", 64, 1000);
    req.tenant_id = "nobody".to_string();
    assert!(matches!(o.begin(&req, 0, 0), Err(LLMPoolError::AuthError(_))));
    let req = request("hello", 64, 5000);
    assert!(matches!(o.begin(&req, 0, 0), Err(LLMPoolError::InvalidQuery(_))));
    let mut req = request("hello", 64, 1000);
    req.task = "site_tactics".to_string();
    assert!(matches!(o.begin(&req, 0, 0), Err(LLMPoolError::EnsembleError(_))));
}

#[test]
fn strategy_used_is_the_symbol_run() {
    let mut cfg = config(vec![provider("A", "ollama", &["expand_queries"])]);
    cfg.cache.enabled = false;
    let pool = init(&cfg.providers).ok().expect("pool");
    let mut o = Orchestrator::new(cfg, pool, 0).ok().expect("orchestrator");
    let mut req = request("hello", 64, 1000);
    req.strategy = Some("voting".to_string());
    let plan = match o.begin(&req, 0, 0) {
        Ok(Plan::Run(p)) => p,
        _ => panic!("expected a run"),
    };
    assert_eq!(plan.strategy, Strategy::Voting);
    let replies = vec![Reply {
        source: 0,
        response: ProviderResponse { content: "Y".to_string(), model: "m".to_string(), duration_ms: 1 },
    }];
    let result = select(plan.strategy, &plan.names, &plan.weights, &replies);
    let r = o.finish(&req, &plan, result, 5).ok().expect("response");
    assert_eq!(r.strategy_used, "VOTING");
    req.strategy = Some("whatever".to_string());
    match o.begin(&req, 1, 0) {
        Ok(Plan::Run(p)) => assert_eq!(p.strategy, Strategy::Fastest),
        _ => panic!("expected a run"),
    }
}

#[test]
fn failed_request_is_not_cached_and_all_open_is_reported() {
    let cfg = config(vec![provider("A", "ollama", &["expand_queries"])]);
    let pool = init(&cfg.providers).ok().expect("pool");
    let mut o = Orchestrator::new(cfg, pool, 0).ok().expect("orchestrator");
    let req = request("hello", 64, 1000);
    let plan = match o.begin(&req, 0, 0) {
        Ok(Plan::Run(p)) => p,
        _ => panic!("expected a run"),
    };
    assert!(o.finish(&req, &plan, Err(LLMPoolError::DeadlineExceeded(1000)), 1000).is_err());
    assert!(matches!(o.begin(&req, 1, 0), Ok(Plan::Run(_))));
    for t in 0..4u64 {
        o.record_outcome(0, false, 10 + t);
    }
    match o.begin(&req, 20, 0) {
        Err(LLMPoolError::EnsembleError(m)) => assert_eq!(m, "all providers breaker-open"),
        _ => panic!("expected all providers breaker-open"),
    }
}

#[test]
fn fan_out_and_race_errors() {
    assert!(matches!(gathered(vec![], false, 200), Err(LLMPoolError::DeadlineExceeded(200))));
    assert!(matches!(gathered(vec![], true, 200), Ok(v) if v.is_empty()));
    let r = Reply {
        source: 0,
        response: ProviderResponse { content: "c".to_string(), model: "m".to_string(), duration_ms: 1 },
    };
    assert!(matches!(gathered(vec![r], false, 200), Ok(v) if v.len() == 1));
    assert!(matches!(give_up_error(None, 200), LLMPoolError::DeadlineExceeded(200)));
    assert!(matches!(
        give_up_error(Some(LLMPoolError::ProviderError("t".to_string())), 200),
        LLMPoolError::ProviderError(_)
    ));
}

#[test]
fn make_key_is_sixty_four_hex_digits() {
    let k = make_key("judge", "some prompt", 128);
    assert_eq!(k.len(), 64);
    assert!(k.chars().all(|c| c.is_ascii_hexdigit() && !c.is_ascii_uppercase()));
}
