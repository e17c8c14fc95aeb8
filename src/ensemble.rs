use vstd::prelude::*;
use crate::config::JudgeConfig;
use crate::errors::LLMPoolError;
use crate::judge::{fallback_of, firsts_before, judge_choice, judge_select};
use crate::providers::ProviderResponse;
use crate::text::{append, append_chars, decimal, decimal_of, normalize, normalized, same_chars, str_is, to_upper, upper_of};

verus! {

/// The five ways of turning backend answers into one winner.
#[derive(Clone, Copy, Debug, PartialEq, Eq, Structural)]
pub enum Strategy {
    Fastest,
    Voting,
    Weighted,
    Consensus,
    Judge,
}

/// The strategy that an upper-case name stands for; unknown names mean
/// `Fastest`.
pub open spec fn strategy_named(u: Seq<char>) -> Strategy {
    if u == "FASTEST"@ {
        Strategy::Fastest
    } else if u == "VOTING"@ {
        Strategy::Voting
    } else if u == "WEIGHTED"@ {
        Strategy::Weighted
    } else if u == "CONSENSUS"@ {
        Strategy::Consensus
    } else if u == "JUDGE"@ {
        Strategy::Judge
    } else {
        Strategy::Fastest
    }
}

/// The upper-case symbol of a strategy.
pub open spec fn strategy_symbol(s: Strategy) -> Seq<char> {
    match s {
        Strategy::Fastest => "FASTEST"@,
        Strategy::Voting => "VOTING"@,
        Strategy::Weighted => "WEIGHTED"@,
        Strategy::Consensus => "CONSENSUS"@,
        Strategy::Judge => "JUDGE"@,
    }
}

/// Maps an already upper-cased name to its strategy.
pub fn strategy_from_upper(u: &str) -> (r: Strategy)
    ensures
        r == strategy_named(u@),
{
    if str_is(u, "FASTEST") {
        Strategy::Fastest
    } else if str_is(u, "VOTING") {
        Strategy::Voting
    } else if str_is(u, "WEIGHTED") {
        Strategy::Weighted
    } else if str_is(u, "CONSENSUS") {
        Strategy::Consensus
    } else if str_is(u, "JUDGE") {
        Strategy::Judge
    } else {
        Strategy::Fastest
    }
}

impl Strategy {
    /// Case-insensitive lookup of a strategy name; unknown names fall back
    /// to `Fastest`.
    pub fn from_str(s: &str) -> (r: Strategy)
        ensures
            r == strategy_named(upper_of(s@)),
    {
        let u = to_upper(s);
        strategy_from_upper(u.as_str())
    }

    /// The upper-case symbol of this strategy.
    pub fn symbol(&self) -> (r: String)
        ensures
            r@ == strategy_symbol(*self),
    {
        match self {
            Strategy::Fastest => "FASTEST".to_string(),
            Strategy::Voting => "VOTING".to_string(),
            Strategy::Weighted => "WEIGHTED".to_string(),
            Strategy::Consensus => "CONSENSUS".to_string(),
            Strategy::Judge => "JUDGE".to_string(),
        }
    }
}


/// The number of answers whose normalized form is `k`.
pub open spec fn votes(ks: Seq<Seq<char>>, k: Seq<char>) -> nat
    decreases ks.len(),
{
    if ks.len() == 0 {
        0
    } else {
        votes(ks.drop_last(), k) + if ks.last() == k { 1nat } else { 0nat }
    }
}

/// The summed weight of the answers whose normalized form is `k`.
pub open spec fn weight_sum(ks: Seq<Seq<char>>, ws: Seq<u32>, k: Seq<char>) -> nat
    decreases ks.len(),
{
    if ks.len() == 0 || ws.len() == 0 {
        0
    } else {
        weight_sum(ks.drop_last(), ws.drop_last(), k) + if ks.last() == k {
            ws.last() as nat
        } else {
            0nat
        }
    }
}

/// Answer `i` is the earliest of its group.
pub open spec fn is_first(ks: Seq<Seq<char>>, i: int) -> bool {
    forall|j: int| 0 <= j < i ==> ks[j] != ks[i]
}

/// What a group is ranked by first: its vote count, or under weighting its
/// summed weight.
pub open spec fn primary_rank(ks: Seq<Seq<char>>, ws: Seq<u32>, by_weight: bool, i: int) -> nat {
    if by_weight {
        weight_sum(ks, ws, ks[i])
    } else {
        votes(ks, ks[i])
    }
}

/// What breaks a tie on the first rank: the summed weight when counting
/// votes; nothing when weighting.
pub open spec fn secondary_rank(ks: Seq<Seq<char>>, ws: Seq<u32>, by_weight: bool, i: int) -> nat {
    if by_weight {
        0
    } else {
        weight_sum(ks, ws, ks[i])
    }
}

/// The group whose earliest answer is `a` ranks above the one whose
/// earliest answer is `b`; the earlier group wins a full tie.
pub open spec fn beats(ks: Seq<Seq<char>>, ws: Seq<u32>, by_weight: bool, a: int, b: int) -> bool {
    let pa = primary_rank(ks, ws, by_weight, a);
    let pb = primary_rank(ks, ws, by_weight, b);
    let sa = secondary_rank(ks, ws, by_weight, a);
    let sb = secondary_rank(ks, ws, by_weight, b);
    pa > pb || (pa == pb && sa > sb) || (pa == pb && sa == sb && a < b)
}

/// `w` is the earliest answer of the group that ranks above every other.
pub open spec fn is_group_winner(ks: Seq<Seq<char>>, ws: Seq<u32>, by_weight: bool, w: int) -> bool {
    &&& 0 <= w < ks.len()
    &&& is_first(ks, w)
    &&& forall|j: int| 0 <= j < ks.len() && is_first(ks, j) && j != w ==> beats(ks, ws, by_weight, w, j)
}

proof fn lemma_votes_bound(ks: Seq<Seq<char>>, k: Seq<char>)
    ensures
        votes(ks, k) <= ks.len(),
    decreases ks.len(),
{
    if ks.len() > 0 {
        lemma_votes_bound(ks.drop_last(), k);
    }
}

proof fn lemma_weight_sum_bound(ks: Seq<Seq<char>>, ws: Seq<u32>, k: Seq<char>)
    ensures
        weight_sum(ks, ws, k) <= ks.len() * 0xffff_ffff,
    decreases ks.len(),
{
    if ks.len() > 0 && ws.len() > 0 {
        lemma_weight_sum_bound(ks.drop_last(), ws.drop_last(), k);
        assert(ks.drop_last().len() * 0xffff_ffff + 0xffff_ffff == ks.len() * 0xffff_ffff)
            by (nonlinear_arith)
            requires
                ks.drop_last().len() + 1 == ks.len(),
        ;
    }
}

/// Vote count and summed weight of the group of answer `i`.
fn group_size(ks: &Vec<Vec<char>>, ws: &Vec<u32>, i: usize) -> (r: (u64, u64))
    requires
        i < ks@.len(),
        ks@.len() == ws@.len(),
        ks@.len() < 0x1_0000_0000,
    ensures
        r.0 == votes(ks@.map_values(|v: Vec<char>| v@), ks@[i as int]@),
        r.1 == weight_sum(ks@.map_values(|v: Vec<char>| v@), ws@, ks@[i as int]@),
{
    let ghost kv = ks@.map_values(|v: Vec<char>| v@);
    let ghost k = ks@[i as int]@;
    let mut count: u64 = 0;
    let mut wsum: u64 = 0;
    let mut j: usize = 0;
    while j < ks.len()
        invariant
            kv == ks@.map_values(|v: Vec<char>| v@),
            k == ks@[i as int]@,
            i < ks@.len(),
            ks@.len() == ws@.len(),
            ks@.len() < 0x1_0000_0000,
            j <= ks@.len(),
            count == votes(kv.subrange(0, j as int), k),
            wsum == weight_sum(kv.subrange(0, j as int), ws@.subrange(0, j as int), k),
        decreases ks@.len() - j,
    {
        proof {
            assert(kv.subrange(0, j + 1).drop_last() == kv.subrange(0, j as int));
            assert(ws@.subrange(0, j + 1).drop_last() == ws@.subrange(0, j as int));
            lemma_votes_bound(kv.subrange(0, j as int), k);
            lemma_weight_sum_bound(kv.subrange(0, j as int), ws@.subrange(0, j as int), k);
            assert(j * 0xffff_ffff <= 0xffff_ffff * 0xffff_ffff) by (nonlinear_arith)
                requires
                    j < 0x1_0000_0000,
            ;
        }
        if same_chars(&ks[j], &ks[i]) {
            count = count + 1;
            wsum = wsum + ws[j] as u64;
        }
        j = j + 1;
    }
    assert(kv.subrange(0, ks@.len() as int) == kv);
    assert(ws@.subrange(0, ks@.len() as int) == ws@);
    (count, wsum)
}

/// Whether answer `i` is the earliest of its group.
pub(crate) fn first_of_group(ks: &Vec<Vec<char>>, i: usize) -> (r: bool)
    requires
        i < ks@.len(),
    ensures
        r == is_first(ks@.map_values(|v: Vec<char>| v@), i as int),
{
    let ghost kv = ks@.map_values(|v: Vec<char>| v@);
    let mut j: usize = 0;
    while j < i
        invariant
            kv == ks@.map_values(|v: Vec<char>| v@),
            i < ks@.len(),
            j <= i,
            forall|m: int| 0 <= m < j ==> kv[m] != kv[i as int],
        decreases i - j,
    {
        if same_chars(&ks[j], &ks[i]) {
            assert(kv[j as int] == kv[i as int]);
            return false;
        }
        j = j + 1;
    }
    true
}

/// The earliest answer of the winning group: the group with most votes
/// (or, when `by_weight`, the largest summed weight), ties broken by summed
/// weight and then by which group answered first.
pub fn pick_group(ks: &Vec<Vec<char>>, ws: &Vec<u32>, by_weight: bool) -> (w: usize)
    requires
        0 < ks@.len() < 0x1_0000_0000,
        ks@.len() == ws@.len(),
    ensures
        is_group_winner(ks@.map_values(|v: Vec<char>| v@), ws@, by_weight, w as int),
{
    let ghost kv = ks@.map_values(|v: Vec<char>| v@);
    let mut best: usize = 0;
    let (bc, bw) = group_size(ks, ws, 0);
    let mut best_p: u64 = if by_weight { bw } else { bc };
    let mut best_s: u64 = if by_weight { 0 } else { bw };
    let mut i: usize = 1;
    while i < ks.len()
        invariant
            kv == ks@.map_values(|v: Vec<char>| v@),
            0 < ks@.len() < 0x1_0000_0000,
            ks@.len() == ws@.len(),
            1 <= i <= ks@.len(),
            best < i,
            is_first(kv, best as int),
            best_p == primary_rank(kv, ws@, by_weight, best as int),
            best_s == secondary_rank(kv, ws@, by_weight, best as int),
            forall|j: int| 0 <= j < i && is_first(kv, j) && j != best ==> beats(kv, ws@, by_weight, best as int, j),
        decreases ks@.len() - i,
    {
        if first_of_group(ks, i) {
            let (c, w) = group_size(ks, ws, i);
            let p: u64 = if by_weight { w } else { c };
            let s: u64 = if by_weight { 0 } else { w };
            if p > best_p || (p == best_p && s > best_s) {
                best = i;
                best_p = p;
                best_s = s;
            }
        }
        i = i + 1;
    }
    best
}


/// An answer, tagged with the position of the backend that gave it in the
/// list of queried backends.
pub struct Reply {
    pub source: usize,
    pub response: ProviderResponse,
}

/// The outcome of a strategy: the winning answer and how it was reached.
/// `winner` is the winning answer's position among the replies handed in;
/// `model_scores` runs parallel to `models_queried`.
pub struct EnsembleResult {
    pub response: ProviderResponse,
    pub winner: usize,
    pub winner_model: String,
    pub strategy_used: Strategy,
    pub models_queried: Vec<String>,
    pub model_scores: Vec<u64>,
    pub reason: String,
}

/// The normalized forms of the replies, in arrival order.
pub open spec fn reply_keys(rs: Seq<Reply>) -> Seq<Seq<char>> {
    rs.map_values(|r: Reply| normalized(r.response.content@))
}

/// The weight of each reply's backend, in arrival order.
pub open spec fn reply_weights(rs: Seq<Reply>, weights: Seq<u32>) -> Seq<u32> {
    rs.map_values(|r: Reply| if r.source < weights.len() { weights[r.source as int] } else { 0u32 })
}

/// Every reply names a queried backend, and there is one weight per backend.
pub open spec fn replies_well_formed(queried: Seq<String>, weights: Seq<u32>, rs: Seq<Reply>) -> bool {
    &&& queried.len() == weights.len()
    &&& rs.len() < 0x1_0000_0000
    &&& forall|i: int| 0 <= i < rs.len() ==> rs[i].source < queried.len()
}

/// Backend `s` gave at least one reply.
pub open spec fn replied(rs: Seq<Reply>, s: int) -> bool {
    exists|i: int| 0 <= i < rs.len() && rs[i].source == s
}

/// The smallest group size that Consensus accepts among `n` replies:
/// half of them, rounded up, plus one.
pub open spec fn quorum(n: nat) -> nat {
    (n + 1) / 2 + 1
}

/// `w` is the reply that `strategy` picks, before any quorum check.
pub open spec fn picks(strategy: Strategy, weights: Seq<u32>, rs: Seq<Reply>, w: int) -> bool {
    match strategy {
        Strategy::Fastest => w == 0 && rs.len() > 0,
        Strategy::Weighted => is_group_winner(reply_keys(rs), reply_weights(rs, weights), true, w),
        _ => is_group_winner(reply_keys(rs), reply_weights(rs, weights), false, w),
    }
}

/// The score of backend `s` under `strategy`, when reply `w` won: its vote
/// (one if it answered) under Voting and Consensus, its weight if it
/// answered under Weighted, and one for the winner alone otherwise.
pub open spec fn score(strategy: Strategy, weights: Seq<u32>, rs: Seq<Reply>, w: int, s: int) -> nat {
    match strategy {
        Strategy::Voting | Strategy::Consensus => if replied(rs, s) { 1 } else { 0 },
        Strategy::Weighted => if replied(rs, s) { weights[s] as nat } else { 0 },
        _ => if rs[w].source == s { 1 } else { 0 },
    }
}

/// `r` reports reply `w` as the winner of `strategy` over backends
/// `queried`.
pub open spec fn reports(
    r: EnsembleResult,
    strategy: Strategy,
    queried: Seq<String>,
    weights: Seq<u32>,
    rs: Seq<Reply>,
    w: int,
) -> bool {
    &&& 0 <= w < rs.len()
    &&& r.winner == w
    &&& r.response@ == rs[w].response@
    &&& r.winner_model@ == queried[rs[w].source as int]@
    &&& r.strategy_used == strategy
    &&& r.models_queried@.len() == queried.len()
    &&& forall|i: int| 0 <= i < queried.len() ==> r.models_queried@[i]@ == queried[i]@
    &&& r.model_scores@.len() == queried.len()
    &&& forall|s: int| 0 <= s < queried.len() ==> r.model_scores@[s] == score(strategy, weights, rs, w, s)
}

/// Normalized forms of all replies.
pub(crate) fn keys_of(replies: &Vec<Reply>) -> (ks: Vec<Vec<char>>)
    ensures
        ks@.len() == replies@.len(),
        ks@.map_values(|v: Vec<char>| v@) == reply_keys(replies@),
{
    let mut ks: Vec<Vec<char>> = Vec::new();
    let mut i: usize = 0;
    while i < replies.len()
        invariant
            i <= replies@.len(),
            ks@.len() == i,
            forall|j: int| 0 <= j < i ==> ks@[j]@ == normalized(replies@[j].response.content@),
        decreases replies@.len() - i,
    {
        let k = normalize(replies[i].response.content.as_str());
        ks.push(k);
        i = i + 1;
    }
    assert(ks@.map_values(|v: Vec<char>| v@) =~= reply_keys(replies@));
    ks
}

/// The weight of each reply's backend.
fn weights_of(weights: &Vec<u32>, replies: &Vec<Reply>) -> (ws: Vec<u32>)
    ensures
        ws@.len() == replies@.len(),
        ws@ == reply_weights(replies@, weights@),
{
    let mut ws: Vec<u32> = Vec::new();
    let mut i: usize = 0;
    while i < replies.len()
        invariant
            i <= replies@.len(),
            ws@ == reply_weights(replies@, weights@).subrange(0, i as int),
        decreases replies@.len() - i,
    {
        let s = replies[i].source;
        let w: u32 = if s < weights.len() { weights[s] } else { 0 };
        ws.push(w);
        assert(ws@ =~= reply_weights(replies@, weights@).subrange(0, i + 1));
        i = i + 1;
    }
    assert(reply_weights(replies@, weights@).subrange(0, i as int) =~= reply_weights(replies@, weights@));
    ws
}

/// Whether backend `s` gave a reply.
fn has_replied(replies: &Vec<Reply>, s: usize) -> (r: bool)
    ensures
        r == replied(replies@, s as int),
{
    let mut i: usize = 0;
    while i < replies.len()
        invariant
            i <= replies@.len(),
            forall|j: int| 0 <= j < i ==> replies@[j].source != s,
        decreases replies@.len() - i,
    {
        if replies[i].source == s {
            return true;
        }
        i = i + 1;
    }
    false
}

/// Copies of the queried names and the score of each under `strategy`.
fn scores_of(
    strategy: Strategy,
    queried: &Vec<String>,
    weights: &Vec<u32>,
    replies: &Vec<Reply>,
    w: usize,
) -> (r: (Vec<String>, Vec<u64>))
    requires
        w < replies@.len(),
        queried@.len() == weights@.len(),
    ensures
        r.0@.len() == queried@.len(),
        forall|i: int| 0 <= i < queried@.len() ==> r.0@[i]@ == queried@[i]@,
        r.1@.len() == queried@.len(),
        forall|s: int| 0 <= s < queried@.len() ==> r.1@[s] == score(strategy, weights@, replies@, w as int, s),
{
    let mut names: Vec<String> = Vec::new();
    let mut scores: Vec<u64> = Vec::new();
    let mut s: usize = 0;
    while s < queried.len()
        invariant
            w < replies@.len(),
            queried@.len() == weights@.len(),
            s <= queried@.len(),
            names@.len() == s,
            scores@.len() == s,
            forall|i: int| 0 <= i < s ==> names@[i]@ == queried@[i]@,
            forall|i: int| 0 <= i < s ==> scores@[i] == score(strategy, weights@, replies@, w as int, i),
        decreases queried@.len() - s,
    {
        let v: u64 = match strategy {
            Strategy::Voting | Strategy::Consensus => if has_replied(replies, s) { 1 } else { 0 },
            Strategy::Weighted => if has_replied(replies, s) { weights[s] as u64 } else { 0 },
            _ => if replies[w].source == s { 1 } else { 0 },
        };
        names.push(queried[s].clone());
        scores.push(v);
        s = s + 1;
    }
    (names, scores)
}

/// Builds the result that reports reply `w` as the winner.
pub(crate) fn report(
    strategy: Strategy,
    queried: &Vec<String>,
    weights: &Vec<u32>,
    replies: &Vec<Reply>,
    w: usize,
    reason: &str,
) -> (r: EnsembleResult)
    requires
        w < replies@.len(),
        replies_well_formed(queried@, weights@, replies@),
    ensures
        reports(r, strategy, queried@, weights@, replies@, w as int),
{
    let (names, scores) = scores_of(strategy, queried, weights, replies, w);
    EnsembleResult {
        response: replies[w].response.clone(),
        winner: w,
        winner_model: queried[replies[w].source].clone(),
        strategy_used: strategy,
        models_queried: names,
        model_scores: scores,
        reason: reason.to_string(),
    }
}

/// The Consensus failure message: how large the largest group was, out of
/// how many replies, and how many were needed.
pub open spec fn split_text(largest: nat, n: nat) -> Seq<char> {
    "no majority: largest group has "@ + decimal(largest) + " of "@ + decimal(n) + " replies, "@
        + decimal(quorum(n)) + " needed"@
}

fn split_message(largest: u64, n: u64) -> (r: String)
    requires
        n < 0x1_0000_0000,
    ensures
        r@ == split_text(largest as nat, n as nat),
{
    let mut m = String::new();
    append(&mut m, "no majority: largest group has ");
    append_chars(&mut m, &decimal_of(largest));
    append(&mut m, " of ");
    append_chars(&mut m, &decimal_of(n));
    append(&mut m, " replies, ");
    append_chars(&mut m, &decimal_of((n + 1) / 2 + 1));
    append(&mut m, " needed");
    m
}

/// Picks the winning reply under `strategy` from the replies gathered from
/// backends `queried` (arrival order). Judge is decided by `judge_select`;
/// here it counts as Voting.
pub fn select(
    strategy: Strategy,
    queried: &Vec<String>,
    weights: &Vec<u32>,
    replies: &Vec<Reply>,
) -> (r: Result<EnsembleResult, LLMPoolError>)
    requires
        replies_well_formed(queried@, weights@, replies@),
    ensures
        replies@.len() == 0 ==> r is Err && r->Err_0 is EnsembleError,
        replies@.len() > 0 && strategy != Strategy::Consensus ==> r is Ok,
        r is Ok ==> picks(strategy, weights@, replies@, r->Ok_0.winner as int)
            && reports(r->Ok_0, strategy, queried@, weights@, replies@, r->Ok_0.winner as int),
        strategy == Strategy::Consensus ==> (r is Ok <==> replies@.len() > 0
            && exists|w: int| #![trigger picks(strategy, weights@, replies@, w)]
                picks(strategy, weights@, replies@, w)
                && votes(reply_keys(replies@), reply_keys(replies@)[w]) >= quorum(replies@.len())),
        r is Ok ==> exists|i: int| 0 <= i < r->Ok_0.models_queried@.len()
            && #[trigger] r->Ok_0.models_queried@[i]@ == r->Ok_0.winner_model@,
        r is Ok && strategy == Strategy::Consensus ==> votes(
            reply_keys(replies@),
            reply_keys(replies@)[r->Ok_0.winner as int],
        ) >= quorum(replies@.len()),
        r is Err && strategy == Strategy::Consensus && replies@.len() > 0 ==> exists|w: int|
            #![trigger picks(strategy, weights@, replies@, w)]
            picks(strategy, weights@, replies@, w) && r->Err_0 is EnsembleError
                && r->Err_0->EnsembleError_0@ == split_text(
                    votes(reply_keys(replies@), reply_keys(replies@)[w]),
                    replies@.len(),
                ),
        r is Err ==> r->Err_0 is EnsembleError,
{
    if replies.len() == 0 {
        return Err(LLMPoolError::EnsembleError("All providers failed".to_string()));
    }
    match strategy {
        Strategy::Fastest => {
            let r = report(strategy, queried, weights, replies, 0, "First provider to respond");
            assert(r.models_queried@[replies@[0].source as int]@ == r.winner_model@);
            Ok(r)
        },
        _ => {
            let ks = keys_of(replies);
            let ws = weights_of(weights, replies);
            let by_weight = strategy == Strategy::Weighted;
            let w = pick_group(&ks, &ws, by_weight);
            if strategy == Strategy::Consensus {
                let (count, _) = group_size(&ks, &ws, w);
                let n = replies.len() as u64;
                if count < (n + 1) / 2 + 1 {
                    assert(picks(strategy, weights@, replies@, w as int));
                    proof {
                        assert forall|v: int| #![trigger picks(strategy, weights@, replies@, v)]
                            picks(strategy, weights@, replies@, v) implies v == w as int by {
                            let kv = reply_keys(replies@);
                            let wv = reply_weights(replies@, weights@);
                            if v != w as int {
                                assert(beats(kv, wv, false, v, w as int));
                                assert(beats(kv, wv, false, w as int, v));
                            }
                        }
                    }
                    return Err(LLMPoolError::EnsembleError(split_message(count, n)));
                }
                assert(picks(strategy, weights@, replies@, w as int));
                let r = report(strategy, queried, weights, replies, w, "Strict majority");
                assert(r.models_queried@[replies@[w as int].source as int]@ == r.winner_model@);
                Ok(r)
            } else {
                let r = if by_weight {
                    report(strategy, queried, weights, replies, w, "Largest summed weight")
                } else {
                    report(strategy, queried, weights, replies, w, "Most votes")
                };
                assert(r.models_queried@[replies@[w as int].source as int]@ == r.winner_model@);
                Ok(r)
            }
        }
    }
}

/// The result of a hedged race that backend `winner.source` won after the
/// first `launched` of `queried` had been started: only those count as
/// queried, and the winner alone scores one.
pub fn fastest_result(queried: &Vec<String>, weights: &Vec<u32>, launched: usize, winner: Reply) -> (r: EnsembleResult)
    requires
        queried@.len() == weights@.len(),
        winner.source < launched <= queried@.len(),
    ensures
        r.winner == 0,
        r.response@ == winner.response@,
        r.winner_model@ == queried@[winner.source as int]@,
        r.strategy_used == Strategy::Fastest,
        r.models_queried@.len() == launched,
        forall|i: int| #![trigger r.models_queried@[i]] 0 <= i < launched ==> r.models_queried@[i]@ == queried@[i]@,
        r.model_scores@.len() == launched,
        forall|s: int| 0 <= s < launched ==> #[trigger] r.model_scores@[s] == if s == winner.source { 1u64 } else { 0u64 },
{
    let mut names: Vec<String> = Vec::new();
    let mut ws: Vec<u32> = Vec::new();
    let mut i: usize = 0;
    while i < launched
        invariant
            launched <= queried@.len(),
            queried@.len() == weights@.len(),
            i <= launched,
            names@.len() == i,
            ws@.len() == i,
            forall|j: int| #![trigger names@[j]] 0 <= j < i ==> names@[j]@ == queried@[j]@,
        decreases launched - i,
    {
        names.push(queried[i].clone());
        ws.push(weights[i]);
        i = i + 1;
    }
    let replies = vec![winner];
    let r = report(Strategy::Fastest, &names, &ws, &replies, 0, "First provider to respond");
    assert forall|j: int| 0 <= j < launched implies #[trigger] r.models_queried@[j]@ == queried@[j]@ by {
        assert(r.models_queried@[j]@ == names@[j]@);
    }
    r
}

/// Runs the named strategies over gathered replies. Holds the strategy
/// that Judge falls back on.
pub struct Ensemble {
    pub fallback: Strategy,
}

impl Ensemble {
    /// An ensemble whose Judge falls back on the configured strategy.
    pub fn new(judge: &JudgeConfig) -> (r: Ensemble)
        ensures
            r.fallback == strategy_named(upper_of(judge.fallback_strategy@)),
    {
        Ensemble { fallback: Strategy::from_str(judge.fallback_strategy.as_str()) }
    }

    /// Decides `strategy` over the replies gathered from backends `queried`.
    /// `judge_reply` is the judge's answer, used by Judge alone.
    pub fn execute(
        &self,
        strategy: Strategy,
        queried: &Vec<String>,
        weights: &Vec<u32>,
        replies: &Vec<Reply>,
        judge_reply: Option<&str>,
    ) -> (r: Result<EnsembleResult, LLMPoolError>)
        requires
            replies_well_formed(queried@, weights@, replies@),
        ensures
            queried@.len() == 0 || replies@.len() == 0 ==> r is Err,
            r is Err ==> r->Err_0 is EnsembleError,
            r is Ok ==> exists|i: int| 0 <= i < r->Ok_0.models_queried@.len()
                && #[trigger] r->Ok_0.models_queried@[i]@ == r->Ok_0.winner_model@,
            strategy != Strategy::Judge && strategy != Strategy::Consensus && replies@.len() > 0 ==> r is Ok,
            strategy != Strategy::Judge && r is Ok ==> picks(strategy, weights@, replies@, r->Ok_0.winner as int)
                && reports(r->Ok_0, strategy, queried@, weights@, replies@, r->Ok_0.winner as int),
            strategy == Strategy::Consensus && r is Ok ==> votes(
                reply_keys(replies@),
                reply_keys(replies@)[r->Ok_0.winner as int],
            ) >= quorum(replies@.len()),
            strategy == Strategy::Consensus ==> (r is Ok <==> replies@.len() > 0
                && exists|w: int| #![trigger picks(strategy, weights@, replies@, w)]
                    picks(strategy, weights@, replies@, w)
                    && votes(reply_keys(replies@), reply_keys(replies@)[w]) >= quorum(replies@.len())),
            strategy == Strategy::Judge ==> ({
                let choice = judge_choice(replies@, match judge_reply {
                    Some(t) => Some(t@),
                    None => None,
                });
                &&& replies@.len() > 0 && choice is Some ==> r is Ok
                    && is_first(reply_keys(replies@), r->Ok_0.winner as int)
                    && firsts_before(reply_keys(replies@), r->Ok_0.winner as int) == choice->0
                    && reports(r->Ok_0, Strategy::Judge, queried@, weights@, replies@, r->Ok_0.winner as int)
                &&& replies@.len() > 0 && choice is None && fallback_of(self.fallback) != Strategy::Consensus
                    ==> r is Ok
                &&& choice is None && r is Ok ==> picks(fallback_of(self.fallback), weights@, replies@, r->Ok_0.winner as int)
                    && reports(r->Ok_0, fallback_of(self.fallback), queried@, weights@, replies@, r->Ok_0.winner as int)
            }),
    {
        if queried.len() == 0 {
            return Err(LLMPoolError::EnsembleError("No providers available".to_string()));
        }
        match strategy {
            Strategy::Judge => judge_select(queried, weights, replies, judge_reply, self.fallback),
            _ => select(strategy, queried, weights, replies),
        }
    }
}

} // verus!
