use vstd::prelude::*;
use crate::ensemble::{
    first_of_group, is_first, keys_of, picks, replies_well_formed, reply_keys, report, reports,
    select, EnsembleResult, Reply, Strategy,
};
use crate::errors::LLMPoolError;
use crate::text::{append, append_chars, chars_of, decimal, decimal_of};

verus! {

/// How many of the first `n` replies open a group of their own.
pub open spec fn firsts_before(ks: Seq<Seq<char>>, n: int) -> nat
    decreases n,
{
    if n <= 0 {
        0
    } else {
        firsts_before(ks, n - 1) + if is_first(ks, n - 1) { 1nat } else { 0nat }
    }
}

/// Positions of the replies that open a group: one per distinct normalized
/// answer, in arrival order.
pub fn candidate_indices(replies: &Vec<Reply>) -> (r: Vec<usize>)
    ensures
        r@.len() == firsts_before(reply_keys(replies@), replies@.len() as int),
        forall|k: int| 0 <= k < r@.len() ==> #[trigger] r@[k] < replies@.len()
            && is_first(reply_keys(replies@), r@[k] as int)
            && firsts_before(reply_keys(replies@), r@[k] as int) == k,
{
    let ks = keys_of(replies);
    let ghost kv = reply_keys(replies@);
    let mut r: Vec<usize> = Vec::new();
    let mut i: usize = 0;
    while i < replies.len()
        invariant
            kv == reply_keys(replies@),
            ks@.len() == replies@.len(),
            ks@.map_values(|v: Vec<char>| v@) == kv,
            i <= replies@.len(),
            r@.len() == firsts_before(kv, i as int),
            forall|k: int| 0 <= k < r@.len() ==> #[trigger] r@[k] < i
                && is_first(kv, r@[k] as int)
                && firsts_before(kv, r@[k] as int) == k,
        decreases replies@.len() - i,
    {
        if first_of_group(&ks, i) {
            r.push(i);
        }
        i = i + 1;
    }
    r
}

/// The candidate list of a judgment prompt: one line `[k] answer` for each.
pub open spec fn candidate_lines(contents: Seq<Seq<char>>) -> Seq<char>
    decreases contents.len(),
{
    if contents.len() == 0 {
        Seq::empty()
    } else {
        candidate_lines(contents.drop_last()) + "["@ + decimal((contents.len() - 1) as nat) + "] "@
            + contents.last() + "\n"@
    }
}

/// The prompt put to the judge: the user's question, then the numbered
/// candidates, then the request to answer with a number.
pub open spec fn judgment_text(prompt: Seq<char>, contents: Seq<Seq<char>>) -> Seq<char> {
    "Question:\n"@ + prompt + "\n\nCandidate answers:\n"@ + candidate_lines(contents)
        + "Reply with the number of the best answer."@
}

/// The raw answers at the given positions.
pub open spec fn contents_at(replies: Seq<Reply>, positions: Seq<usize>) -> Seq<Seq<char>> {
    positions.map_values(|p: usize| replies[p as int].response.content@)
}

/// Builds the judgment prompt over the candidates at `positions`.
pub fn judgment_prompt(prompt: &str, replies: &Vec<Reply>, positions: &Vec<usize>) -> (r: String)
    requires
        forall|k: int| 0 <= k < positions@.len() ==> #[trigger] positions@[k] < replies@.len(),
    ensures
        r@ == judgment_text(prompt@, contents_at(replies@, positions@)),
{
    let mut lines = String::new();
    let mut k: usize = 0;
    while k < positions.len()
        invariant
            forall|j: int| 0 <= j < positions@.len() ==> #[trigger] positions@[j] < replies@.len(),
            k <= positions@.len(),
            lines@ == candidate_lines(contents_at(replies@, positions@.subrange(0, k as int))),
        decreases positions@.len() - k,
    {
        let ghost before = contents_at(replies@, positions@.subrange(0, k as int));
        let ghost after = contents_at(replies@, positions@.subrange(0, k + 1));
        assert(after.drop_last() =~= before);
        append(&mut lines, "[");
        append_chars(&mut lines, &decimal_of(k as u64));
        append(&mut lines, "] ");
        append(&mut lines, replies[positions[k]].response.content.as_str());
        append(&mut lines, "\n");
        k = k + 1;
    }
    assert(positions@.subrange(0, k as int) =~= positions@);
    let mut r = String::new();
    append(&mut r, "Question:\n");
    append(&mut r, prompt);
    append(&mut r, "\n\nCandidate answers:\n");
    append(&mut r, lines.as_str());
    append(&mut r, "Reply with the number of the best answer.");
    proof {
        assert(r@ =~= judgment_text(prompt@, contents_at(replies@, positions@)));
    }
    r
}


pub open spec fn is_digit(c: char) -> bool {
    '0' <= c && c <= '9'
}

/// The value of a run of decimal digits.
pub open spec fn digits_value(ds: Seq<char>) -> nat
    decreases ds.len(),
{
    if ds.len() == 0 {
        0
    } else {
        digits_value(ds.drop_last()) * 10 + (ds.last() as nat - '0' as nat) as nat
    }
}

/// How many digits `s` starts with.
pub open spec fn leading_digits(s: Seq<char>) -> nat
    decreases s.len(),
{
    if s.len() > 0 && is_digit(s[0]) {
        1 + leading_digits(s.drop_first())
    } else {
        0
    }
}

/// The first integer written in `s`: the value of its first run of digits.
pub open spec fn first_integer(s: Seq<char>) -> Option<nat>
    decreases s.len(),
{
    if s.len() == 0 {
        None
    } else if is_digit(s[0]) {
        Some(digits_value(s.subrange(0, leading_digits(s) as int)))
    } else {
        first_integer(s.drop_first())
    }
}

/// The candidate that a judge reply names among `n`: the first integer in
/// the reply, when it is a valid position.
pub open spec fn choice_in(reply: Seq<char>, n: nat) -> Option<nat> {
    match first_integer(reply) {
        Some(v) => if v < n { Some(v) } else { None },
        None => None,
    }
}

proof fn lemma_leading_digits(s: Seq<char>, j: int)
    requires
        0 <= j <= s.len(),
        forall|m: int| 0 <= m < j ==> is_digit(s[m]),
        j == s.len() || !is_digit(s[j]),
    ensures
        leading_digits(s) == j,
    decreases j,
{
    if j > 0 {
        lemma_leading_digits(s.drop_first(), j - 1);
    }
}

proof fn lemma_first_integer_skip(s: Seq<char>, i: int)
    requires
        0 <= i <= s.len(),
        forall|m: int| 0 <= m < i ==> !is_digit(s[m]),
    ensures
        first_integer(s) == first_integer(s.subrange(i, s.len() as int)),
    decreases i,
{
    if i > 0 {
        lemma_first_integer_skip(s.drop_first(), i - 1);
        assert(s.drop_first().subrange(i - 1, s.drop_first().len() as int) =~= s.subrange(i, s.len() as int));
    } else {
        assert(s.subrange(0, s.len() as int) =~= s);
    }
}

proof fn lemma_saturate(v: nat, d: nat, n: nat)
    requires
        d < 10,
    ensures
        (if v < n { v } else { n }) * 10 + d >= n ==> (v * 10 + d >= n),
        (if v < n { v } else { n }) * 10 + d < n ==> v < n && v * 10 + d < n,
{
    assert(v >= n ==> v * 10 + d >= n) by (nonlinear_arith);
    assert(n * 10 + d >= n) by (nonlinear_arith);
}

/// The candidate that a judge reply names among `n`, if any.
pub fn parse_choice(reply: &str, n: usize) -> (r: Option<usize>)
    ensures
        r matches Some(k) ==> choice_in(reply@, n as nat) == Some(k as nat),
        r is None ==> choice_in(reply@, n as nat) is None,
{
    let cs = chars_of(reply);
    let mut i: usize = 0;
    while i < cs.len() && !('0' <= cs[i] && cs[i] <= '9')
        invariant
            cs@ == reply@,
            i <= cs@.len(),
            forall|m: int| 0 <= m < i ==> !is_digit(cs@[m]),
        decreases cs@.len() - i,
    {
        i = i + 1;
    }
    proof {
        lemma_first_integer_skip(cs@, i as int);
    }
    if i == cs.len() {
        return None;
    }
    let ghost rest = cs@.subrange(i as int, cs@.len() as int);
    // the value read so far, held at `n` once it reaches `n`
    let mut acc: usize = 0;
    let mut j: usize = i;
    while j < cs.len() && '0' <= cs[j] && cs[j] <= '9'
        invariant
            cs@ == reply@,
            rest == cs@.subrange(i as int, cs@.len() as int),
            i < j <= cs@.len() || j == i,
            i < cs@.len(),
            is_digit(cs@[i as int]),
            forall|m: int| i <= m < j ==> is_digit(cs@[m]),
            acc == (if digits_value(cs@.subrange(i as int, j as int)) < n {
                digits_value(cs@.subrange(i as int, j as int))
            } else {
                n as nat
            }),
        decreases cs@.len() - j,
    {
        let d = (cs[j] as u32 - '0' as u32) as usize;
        let ghost v = digits_value(cs@.subrange(i as int, j as int));
        assert(cs@.subrange(i as int, j + 1).drop_last() =~= cs@.subrange(i as int, j as int));
        proof {
            lemma_saturate(v, d as nat, n as nat);
        }
        if acc >= n || d > n || acc > (n - d) / 10 {
            assert(acc * 10 + d >= n) by (nonlinear_arith)
                requires
                    acc >= n || d > n || (d <= n && acc > (n - d) / 10),
            ;
            acc = n;
        } else {
            assert(acc * 10 + d <= n) by (nonlinear_arith)
                requires acc <= (n - d) / 10, d <= n;
            acc = acc * 10 + d;
            if acc >= n {
                acc = n;
            }
        }
        j = j + 1;
    }
    proof {
        lemma_leading_digits(rest, j - i);
        assert(rest.subrange(0, j - i) =~= cs@.subrange(i as int, j as int));
    }
    if acc < n {
        Some(acc)
    } else {
        None
    }
}


/// The strategy applied when the judge gives no usable answer; a fallback
/// of Judge itself means Voting.
pub open spec fn fallback_of(s: Strategy) -> Strategy {
    if s == Strategy::Judge { Strategy::Voting } else { s }
}

/// The candidate that the judge named, if its reply names a valid one.
pub open spec fn judge_choice(rs: Seq<Reply>, reply: Option<Seq<char>>) -> Option<nat> {
    match reply {
        Some(t) => choice_in(t, firsts_before(reply_keys(rs), rs.len() as int)),
        None => None,
    }
}

/// Decides the Judge strategy once the judge has been asked: `judge_reply`
/// is its answer, or `None` when it failed, timed out or is not configured.
/// A reply that names a candidate makes that candidate's earliest answer
/// the winner; otherwise `fallback` decides over the same replies.
pub fn judge_select(
    queried: &Vec<String>,
    weights: &Vec<u32>,
    replies: &Vec<Reply>,
    judge_reply: Option<&str>,
    fallback: Strategy,
) -> (r: Result<EnsembleResult, LLMPoolError>)
    requires
        replies_well_formed(queried@, weights@, replies@),
    ensures
        replies@.len() == 0 ==> r is Err && r->Err_0 is EnsembleError,
        ({
            let choice = judge_choice(replies@, match judge_reply {
                Some(t) => Some(t@),
                None => None,
            });
            &&& replies@.len() > 0 && choice is Some ==> r is Ok
                && is_first(reply_keys(replies@), r->Ok_0.winner as int)
                && firsts_before(reply_keys(replies@), r->Ok_0.winner as int) == choice->0
                && reports(r->Ok_0, Strategy::Judge, queried@, weights@, replies@, r->Ok_0.winner as int)
            &&& replies@.len() > 0 && choice is None && fallback_of(fallback) != Strategy::Consensus
                ==> r is Ok
            &&& choice is None && r is Ok ==> picks(fallback_of(fallback), weights@, replies@, r->Ok_0.winner as int)
                && reports(r->Ok_0, fallback_of(fallback), queried@, weights@, replies@, r->Ok_0.winner as int)
        }),
        r is Ok ==> exists|i: int| 0 <= i < r->Ok_0.models_queried@.len()
            && #[trigger] r->Ok_0.models_queried@[i]@ == r->Ok_0.winner_model@,
        r is Err ==> r->Err_0 is EnsembleError,
{
    if replies.len() == 0 {
        return Err(LLMPoolError::EnsembleError("All providers failed".to_string()));
    }
    let cands = candidate_indices(replies);
    let pick = match judge_reply {
        Some(t) => parse_choice(t, cands.len()),
        None => None,
    };
    match pick {
        Some(k) => {
            let w = cands[k];
            let r = report(Strategy::Judge, queried, weights, replies, w, "Chosen by judge");
            assert(r.models_queried@[replies@[w as int].source as int]@ == r.winner_model@);
            Ok(r)
        },
        None => {
            let fb = if fallback == Strategy::Judge { Strategy::Voting } else { fallback };
            select(fb, queried, weights, replies)
        },
    }
}

} // verus!
