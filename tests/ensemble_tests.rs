use llm_pool::config::JudgeConfig;
use llm_pool::ensemble::{fastest_result, select, Ensemble, EnsembleResult, Reply, Strategy};
use llm_pool::wire::{requested_strategy, string_to_strategy, strategy_to_string, task_to_string, StrategyCode, TaskKind};
use llm_pool::errors::LLMPoolError;
use llm_pool::judge::{candidate_indices, judge_select, judgment_prompt, parse_choice};
use llm_pool::providers::ProviderResponse;
use llm_pool::text::normalize;

fn reply(source: usize, content: &str, model: &str) -> Reply {
    Reply {
        source,
        response: ProviderResponse { content: content.to_string(), model: model.to_string(), duration_ms: 10 },
    }
}

fn names(ns: &[&str]) -> Vec<String> {
    ns.iter().map(|s| s.to_string()).collect()
}

fn ok(r: Result<EnsembleResult, LLMPoolError>) -> EnsembleResult {
    match r {
        Ok(v) => v,
        Err(_) => panic!("expected a winner"),
    }
}

#[test]
fn strategy_names_are_case_insensitive() {
    assert_eq!(Strategy::from_str("voting"), Strategy::Voting);
    assert_eq!(Strategy::from_str("Consensus"), Strategy::Consensus);
    assert_eq!(Strategy::from_str("WEIGHTED"), Strategy::Weighted);
    assert_eq!(Strategy::from_str("judge"), Strategy::Judge);
    assert_eq!(Strategy::from_str("fastest"), Strategy::Fastest);
    assert_eq!(Strategy::from_str("nonsense"), Strategy::Fastest);
    assert_eq!(Strategy::Voting.symbol(), "VOTING");
}

#[test]
fn normalization_trims_lowercases_and_collapses() {
    let n: String = normalize("  Hello \t  WORLD\n ").into_iter().collect();
    assert_eq!(n, "hello world");
    let e: String = normalize("   ").into_iter().collect();
    assert_eq!(e, "");
}

#[test]
fn voting_majority_scenario() {
    let q = names(&["A", "B", "C"]);
    let w = vec![1000, 1000, 1000];
    let rs = vec![reply(1, "yes", "mb"), reply(2, "no", "mc"), reply(0, "yes", "ma")];
    let r = ok(select(Strategy::Voting, &q, &w, &rs));
    assert_eq!(r.response.content, "yes");
    assert_eq!(r.winner_model, "B");
    assert_eq!(r.model_scores, vec![1, 1, 1]);
    assert_eq!(r.models_queried, q);
    assert_eq!(r.strategy_used, Strategy::Voting);
}

#[test]
fn voting_groups_by_normalized_form_and_returns_raw_text() {
    let q = names(&["A", "B", "C"]);
    let w = vec![1000, 1000, 1000];
    let rs = vec![reply(2, "no", "c"), reply(0, " Yes ", "a"), reply(1, "yes", "b")];
    let r = ok(select(Strategy::Voting, &q, &w, &rs));
    assert_eq!(r.response.content, " Yes ");
    assert_eq!(r.winner_model, "A");
    assert_eq!(r.winner, 1);
}

#[test]
fn voting_tie_goes_to_heavier_then_earlier_group() {
    let q = names(&["A", "B"]);
    let rs = vec![reply(0, "x", "a"), reply(1, "y", "b")];
    let r = ok(select(Strategy::Voting, &q, &vec![1000, 2000], &rs));
    assert_eq!(r.response.content, "y");
    let r = ok(select(Strategy::Voting, &q, &vec![1000, 1000], &rs));
    assert_eq!(r.response.content, "x");
}

#[test]
fn weighted_sums_weights() {
    let q = names(&["A", "B", "C"]);
    let w = vec![1000, 1000, 3000];
    let rs = vec![reply(0, "yes", "a"), reply(1, "yes", "b"), reply(2, "no", "c")];
    let r = ok(select(Strategy::Weighted, &q, &w, &rs));
    assert_eq!(r.response.content, "no");
    assert_eq!(r.winner_model, "C");
    assert_eq!(r.model_scores, vec![1000, 1000, 3000]);
}

#[test]
fn consensus_split_fails() {
    let q = names(&["A", "B", "C", "D"]);
    let w = vec![1000; 4];
    let rs = vec![reply(0, "a", "a"), reply(1, "b", "b"), reply(2, "a", "c"), reply(3, "b", "d")];
    match select(Strategy::Consensus, &q, &w, &rs) {
        Err(LLMPoolError::EnsembleError(m)) => {
            assert_eq!(m, "no majority: largest group has 2 of 4 replies, 3 needed")
        }
        _ => panic!("expected an ensemble error"),
    }
}

#[test]
fn consensus_needs_half_rounded_up_plus_one() {
    let q = names(&["A", "B", "C", "D"]);
    let w = vec![1000; 4];
    let rs = vec![reply(0, "a", "a"), reply(1, "a", "b"), reply(2, "a", "c"), reply(3, "b", "d")];
    let r = ok(select(Strategy::Consensus, &q, &w, &rs));
    assert_eq!(r.response.content, "a");
    let three = vec![reply(0, "a", "a"), reply(1, "a", "b"), reply(2, "b", "c")];
    assert!(select(Strategy::Consensus, &q, &w, &three).is_err());
}

#[test]
fn no_replies_is_an_ensemble_error() {
    let q = names(&["A"]);
    match select(Strategy::Fastest, &q, &vec![1000], &vec![]) {
        Err(LLMPoolError::EnsembleError(_)) => {}
        _ => panic!("expected an ensemble error"),
    }
}

#[test]
fn fastest_takes_first_reply() {
    let q = names(&["A", "B"]);
    let rs = vec![reply(1, "fast", "b")];
    let r = ok(select(Strategy::Fastest, &q, &vec![1000, 1000], &rs));
    assert_eq!(r.winner_model, "B");
    assert_eq!(r.models_queried, q);
    assert_eq!(r.model_scores, vec![0, 1]);
}

#[test]
fn winner_is_among_queried() {
    let q = names(&["A", "B", "C"]);
    let rs = vec![reply(2, "z", "c"), reply(0, "y", "a")];
    for s in [Strategy::Fastest, Strategy::Voting, Strategy::Weighted] {
        let r = ok(select(s, &q, &vec![1000, 1000, 1000], &rs));
        assert!(r.models_queried.contains(&r.winner_model));
    }
}

#[test]
fn judge_reply_parsing() {
    assert_eq!(parse_choice("I pick 1.", 3), Some(1));
    assert_eq!(parse_choice("answer: 02 then 0", 3), Some(2));
    assert_eq!(parse_choice("7", 3), None);
    assert_eq!(parse_choice("99999999999999999999999", 3), None);
    assert_eq!(parse_choice("none", 3), None);
}

#[test]
fn judgment_prompt_lists_distinct_candidates() {
    let rs = vec![reply(0, "yes", "a"), reply(1, "YES", "b"), reply(2, "no", "c")];
    let c = candidate_indices(&rs);
    assert_eq!(c, vec![0, 2]);
    let p = judgment_prompt("Is it?", &rs, &c);
    assert_eq!(
        p,
        "Question:\nIs it?\n\nCandidate answers:\n[0] yes\n[1] no\nReply with the number of the best answer."
    );
}

#[test]
fn judge_picks_named_candidate_or_falls_back() {
    let q = names(&["A", "B", "C"]);
    let w = vec![1000; 3];
    let rs = vec![reply(0, "yes", "a"), reply(1, "yes", "b"), reply(2, "no", "c")];
    let r = ok(judge_select(&q, &w, &rs, Some("1"), Strategy::Voting));
    assert_eq!(r.response.content, "no");
    assert_eq!(r.strategy_used, Strategy::Judge);
    assert_eq!(r.model_scores, vec![0, 0, 1]);
    let r = ok(judge_select(&q, &w, &rs, None, Strategy::Judge));
    assert_eq!(r.response.content, "yes");
    assert_eq!(r.strategy_used, Strategy::Voting);
    let r = ok(judge_select(&q, &w, &rs, Some("candidate 5"), Strategy::Voting));
    assert_eq!(r.response.content, "yes");
}

#[test]
fn ensemble_dispatches_by_strategy() {
    let e = Ensemble::new(&JudgeConfig::default());
    assert_eq!(e.fallback, Strategy::Voting);
    let q = names(&["A", "B", "C"]);
    let w = vec![1000; 3];
    let rs = vec![reply(0, "no", "a"), reply(1, "yes", "b"), reply(2, "yes", "c")];
    let r = ok(e.execute(Strategy::Voting, &q, &w, &rs, None));
    assert_eq!(r.winner_model, "B");
    let r = ok(e.execute(Strategy::Judge, &q, &w, &rs, Some("0")));
    assert_eq!(r.response.content, "no");
    assert!(e.execute(Strategy::Fastest, &vec![], &vec![], &vec![], None).is_err());
}

#[test]
fn wire_symbols() {
    assert_eq!(task_to_string(TaskKind::RerankCandidates), "rerank_candidates");
    assert_eq!(task_to_string(TaskKind::Unspecified), "unknown");
    assert_eq!(strategy_to_string(StrategyCode::Consensus), "CONSENSUS");
    assert_eq!(strategy_to_string(StrategyCode::Unspecified), "FASTEST");
    assert_eq!(string_to_strategy("weighted"), StrategyCode::Weighted);
    assert_eq!(string_to_strategy("cache"), StrategyCode::Unspecified);
}

#[test]
fn fastest_reports_only_launched_backends() {
    let q = names(&["A", "B", "C"]);
    let r = fastest_result(&q, &vec![1000; 3], 1, reply(0, "early", "a"));
    assert_eq!(r.models_queried, vec!["A".to_string()]);
    assert_eq!(r.model_scores, vec![1]);
    assert_eq!(r.winner_model, "A");
    let r = fastest_result(&q, &vec![1000; 3], 2, reply(1, "late", "b"));
    assert_eq!(r.models_queried, vec!["A".to_string(), "B".to_string()]);
    assert_eq!(r.model_scores, vec![0, 1]);
    assert_eq!(r.response.content, "late");
}

#[test]
fn unspecified_transport_strategy_is_absent() {
    assert_eq!(requested_strategy(StrategyCode::Unspecified), None);
    assert_eq!(requested_strategy(StrategyCode::Voting), Some("VOTING".to_string()));
}

#[test]
fn unicode_whitespace_is_collapsed() {
    let n: String = normalize("a\u{00A0}\u{2003}b\u{3000}").into_iter().collect();
    assert_eq!(n, "a b");
    let keep: String = normalize("a\u{200B}b").into_iter().collect();
    assert_eq!(keep, "a\u{200B}b");
}
