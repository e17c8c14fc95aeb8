use vstd::prelude::*;
use crate::text::{str_is, to_upper, upper_of};

verus! {

/// The task symbols of the transport contract; `Unspecified` is the
/// transport's zero value.
#[derive(Clone, Copy, Debug, PartialEq, Eq, Structural)]
pub enum TaskKind {
    Unspecified,
    ExpandQueries,
    SiteTactics,
    RerankCandidates,
    Judge,
    RecoveryPlan,
    EnrichMetadata,
}

/// The strategy symbols of the transport contract.
#[derive(Clone, Copy, Debug, PartialEq, Eq, Structural)]
pub enum StrategyCode {
    Unspecified,
    Fastest,
    Voting,
    Weighted,
    Consensus,
    Judge,
}

pub open spec fn task_text(t: TaskKind) -> Seq<char> {
    match t {
        TaskKind::ExpandQueries => "expand_queries"@,
        TaskKind::SiteTactics => "site_tactics"@,
        TaskKind::RerankCandidates => "rerank_candidates"@,
        TaskKind::Judge => "judge"@,
        TaskKind::RecoveryPlan => "recovery_plan"@,
        TaskKind::EnrichMetadata => "enrich_metadata"@,
        TaskKind::Unspecified => "unknown"@,
    }
}

pub open spec fn strategy_text(s: StrategyCode) -> Seq<char> {
    match s {
        StrategyCode::Voting => "VOTING"@,
        StrategyCode::Weighted => "WEIGHTED"@,
        StrategyCode::Consensus => "CONSENSUS"@,
        StrategyCode::Judge => "JUDGE"@,
        _ => "FASTEST"@,
    }
}

/// The code that an upper-case strategy name stands for; unknown names
/// give `Unspecified`.
pub open spec fn code_named(u: Seq<char>) -> StrategyCode {
    if u == "FASTEST"@ {
        StrategyCode::Fastest
    } else if u == "VOTING"@ {
        StrategyCode::Voting
    } else if u == "WEIGHTED"@ {
        StrategyCode::Weighted
    } else if u == "CONSENSUS"@ {
        StrategyCode::Consensus
    } else if u == "JUDGE"@ {
        StrategyCode::Judge
    } else {
        StrategyCode::Unspecified
    }
}

/// The task name that routing uses for a transport task symbol.
pub fn task_to_string(task: TaskKind) -> (r: String)
    ensures
        r@ == task_text(task),
{
    match task {
        TaskKind::ExpandQueries => "expand_queries".to_string(),
        TaskKind::SiteTactics => "site_tactics".to_string(),
        TaskKind::RerankCandidates => "rerank_candidates".to_string(),
        TaskKind::Judge => "judge".to_string(),
        TaskKind::RecoveryPlan => "recovery_plan".to_string(),
        TaskKind::EnrichMetadata => "enrich_metadata".to_string(),
        TaskKind::Unspecified => "unknown".to_string(),
    }
}

/// The strategy name for a transport strategy symbol; an unspecified one
/// means FASTEST.
pub fn strategy_to_string(strategy: StrategyCode) -> (r: String)
    ensures
        r@ == strategy_text(strategy),
{
    match strategy {
        StrategyCode::Voting => "VOTING".to_string(),
        StrategyCode::Weighted => "WEIGHTED".to_string(),
        StrategyCode::Consensus => "CONSENSUS".to_string(),
        StrategyCode::Judge => "JUDGE".to_string(),
        _ => "FASTEST".to_string(),
    }
}

/// The strategy a transport request asks for: none when the symbol is
/// unspecified, so that the per-task map and then the default decide.
pub fn requested_strategy(strategy: StrategyCode) -> (r: Option<String>)
    ensures
        strategy == StrategyCode::Unspecified ==> r is None,
        strategy != StrategyCode::Unspecified ==> (r matches Some(s) && s@ == strategy_text(strategy)),
{
    match strategy {
        StrategyCode::Unspecified => None,
        _ => Some(strategy_to_string(strategy)),
    }
}

/// Maps an already upper-cased name to its transport code.
pub fn code_from_upper(u: &str) -> (r: StrategyCode)
    ensures
        r == code_named(u@),
{
    if str_is(u, "FASTEST") {
        StrategyCode::Fastest
    } else if str_is(u, "VOTING") {
        StrategyCode::Voting
    } else if str_is(u, "WEIGHTED") {
        StrategyCode::Weighted
    } else if str_is(u, "CONSENSUS") {
        StrategyCode::Consensus
    } else if str_is(u, "JUDGE") {
        StrategyCode::Judge
    } else {
        StrategyCode::Unspecified
    }
}

/// Case-insensitive mapping of a strategy name to its transport code.
pub fn string_to_strategy(s: &str) -> (r: StrategyCode)
    ensures
        r == code_named(upper_of(s@)),
{
    let u = to_upper(s);
    code_from_upper(u.as_str())
}

} // verus!
