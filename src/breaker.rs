use vstd::prelude::*;

verus! {

/// Where a breaker stands. `HalfOpen` records whether its one probe has
/// been handed out.
#[derive(Clone, Copy, Debug, PartialEq, Eq, Structural)]
pub enum BreakerState {
    Closed,
    Open { until_ms: u64 },
    HalfOpen { probing: bool },
}

/// The answer to a request for a backend call.
#[derive(Clone, Copy, Debug, PartialEq, Eq, Structural)]
pub enum Admission {
    Admit,
    Reject,
}

/// A breaker in mathematical terms: its tuning, its state and its window of
/// recent outcomes (`true` for a success), oldest first.
pub struct BreakerModel {
    pub fail_rate_permille: nat,
    pub window_size: nat,
    pub cooldown_ms: nat,
    pub state: BreakerState,
    pub window: Seq<bool>,
}

/// Per-backend health gate: trips open when the failure rate over a full
/// window reaches the threshold, stays open for the cooldown, then lets a
/// single probe decide between closing and opening again.
pub struct CircuitBreaker {
    fail_rate_permille: u32,
    window_size: usize,
    cooldown_ms: u64,
    state: BreakerState,
    window: Vec<bool>,
}

impl View for CircuitBreaker {
    type V = BreakerModel;

    closed spec fn view(&self) -> BreakerModel {
        BreakerModel {
            fail_rate_permille: self.fail_rate_permille as nat,
            window_size: self.window_size as nat,
            cooldown_ms: self.cooldown_ms as nat,
            state: self.state,
            window: self.window@,
        }
    }
}

/// The number of failures among the outcomes.
pub open spec fn failures(w: Seq<bool>) -> nat
    decreases w.len(),
{
    if w.len() == 0 {
        0
    } else {
        failures(w.drop_last()) + if w.last() { 0nat } else { 1nat }
    }
}

/// A full window whose failure rate reaches the threshold.
pub open spec fn trips(m: BreakerModel, w: Seq<bool>) -> bool {
    w.len() == m.window_size && failures(w) * 1000 >= m.fail_rate_permille * m.window_size
}

/// The end of a cooldown that starts at `now`, held at the largest time.
pub open spec fn reopen_until(m: BreakerModel, now: u64) -> u64 {
    if now + m.cooldown_ms > u64::MAX { u64::MAX } else { (now + m.cooldown_ms) as u64 }
}

/// A usable breaker: a positive window, a threshold in (0, 1], a window that
/// never outgrows its size, and a closed breaker that has not tripped.
pub open spec fn breaker_wf(m: BreakerModel) -> bool {
    &&& m.window_size > 0
    &&& 0 < m.fail_rate_permille <= 1000
    &&& m.window.len() <= m.window_size
    &&& m.state == BreakerState::Closed ==> !trips(m, m.window)
}

/// The window after one more outcome: appended, the oldest dropped once it
/// would exceed the window size.
pub open spec fn slide(m: BreakerModel, success: bool) -> Seq<bool> {
    let w = m.window.push(success);
    if w.len() > m.window_size { w.drop_first() } else { w }
}

/// The breaker after an outcome reported at `now`.
pub open spec fn after_record(m: BreakerModel, success: bool, now: u64) -> BreakerModel {
    match m.state {
        BreakerState::Closed => {
            let w = slide(m, success);
            if trips(m, w) {
                BreakerModel { state: BreakerState::Open { until_ms: reopen_until(m, now) }, window: w, ..m }
            } else {
                BreakerModel { window: w, ..m }
            }
        },
        BreakerState::Open { .. } => m,
        BreakerState::HalfOpen { .. } => if success {
            BreakerModel { state: BreakerState::Closed, window: Seq::empty(), ..m }
        } else {
            BreakerModel { state: BreakerState::Open { until_ms: reopen_until(m, now) }, ..m }
        },
    }
}

/// The answer to a call request at `now`.
pub open spec fn admission(m: BreakerModel, now: u64) -> Admission {
    match m.state {
        BreakerState::Closed => Admission::Admit,
        BreakerState::Open { until_ms } => if now >= until_ms { Admission::Admit } else { Admission::Reject },
        BreakerState::HalfOpen { probing } => if probing { Admission::Reject } else { Admission::Admit },
    }
}

/// The breaker after a call request at `now`: an expired cooldown turns
/// into a half-open breaker whose probe is the admitted call.
pub open spec fn after_attempt(m: BreakerModel, now: u64) -> BreakerModel {
    match m.state {
        BreakerState::Closed => m,
        BreakerState::Open { until_ms } => if now >= until_ms {
            BreakerModel { state: BreakerState::HalfOpen { probing: true }, ..m }
        } else {
            m
        },
        BreakerState::HalfOpen { probing } => BreakerModel { state: BreakerState::HalfOpen { probing: true }, ..m },
    }
}

fn count_failures(w: &Vec<bool>) -> (r: usize)
    ensures
        r == failures(w@),
{
    let mut r: usize = 0;
    let mut i: usize = 0;
    while i < w.len()
        invariant
            i <= w@.len(),
            r == failures(w@.subrange(0, i as int)),
            r <= i,
        decreases w@.len() - i,
    {
        assert(w@.subrange(0, i + 1).drop_last() =~= w@.subrange(0, i as int));
        if !w[i] {
            r = r + 1;
        }
        i = i + 1;
    }
    assert(w@.subrange(0, i as int) =~= w@);
    r
}

impl CircuitBreaker {
    /// A closed breaker with an empty window. The threshold is in
    /// thousandths.
    pub fn new(fail_rate_permille: u32, window_size: usize, cooldown_ms: u64) -> (r: CircuitBreaker)
        requires
            0 < fail_rate_permille <= 1000,
            window_size > 0,
        ensures
            breaker_wf(r@),
            r@.fail_rate_permille == fail_rate_permille,
            r@.window_size == window_size,
            r@.cooldown_ms == cooldown_ms,
            r@.state == BreakerState::Closed,
            r@.window.len() == 0,
    {
        CircuitBreaker { fail_rate_permille, window_size, cooldown_ms, state: BreakerState::Closed, window: Vec::new() }
    }

    pub fn state(&self) -> (r: BreakerState)
        ensures
            r == self@.state,
    {
        self.state
    }

    /// Asks to call the backend at time `now` (milliseconds).
    pub fn may_attempt(&mut self, now: u64) -> (r: Admission)
        requires
            breaker_wf(old(self)@),
        ensures
            r == admission(old(self)@, now),
            final(self)@ == after_attempt(old(self)@, now),
            breaker_wf(final(self)@),
    {
        match self.state {
            BreakerState::Closed => Admission::Admit,
            BreakerState::Open { until_ms } => {
                if now >= until_ms {
                    self.state = BreakerState::HalfOpen { probing: true };
                    Admission::Admit
                } else {
                    Admission::Reject
                }
            },
            BreakerState::HalfOpen { probing } => {
                self.state = BreakerState::HalfOpen { probing: true };
                if probing { Admission::Reject } else { Admission::Admit }
            },
        }
    }

    /// Reports the outcome of a call at time `now`; `success` is false for
    /// timeouts, transport and server errors and malformed answers.
    pub fn record(&mut self, success: bool, now: u64)
        requires
            breaker_wf(old(self)@),
        ensures
            final(self)@ == after_record(old(self)@, success, now),
            breaker_wf(final(self)@),
    {
        let until: u64 = now.saturating_add(self.cooldown_ms);
        match self.state {
            BreakerState::Closed => {
                let ghost m = self@;
                self.window.push(success);
                if self.window.len() > self.window_size {
                    self.window.remove(0);
                }
                assert(self.window@ =~= slide(m, success));
                let f = count_failures(&self.window);
                let w = self.window_size;
                let fr = self.fail_rate_permille as u128;
                assert(fr * (w as u128) <= 1000 * 0xffff_ffff_ffff_ffff) by (nonlinear_arith)
                    requires
                        fr <= 1000,
                        w <= 0xffff_ffff_ffff_ffff,
                ;
                if self.window.len() == w && (f as u128) * 1000 >= fr * (w as u128) {
                    self.state = BreakerState::Open { until_ms: until };
                }
            },
            BreakerState::Open { .. } => {},
            BreakerState::HalfOpen { .. } => {
                if success {
                    self.state = BreakerState::Closed;
                    self.window = Vec::new();
                } else {
                    self.state = BreakerState::Open { until_ms: until };
                }
            },
        }
    }
}


/// The breaker after a failure reported at each of `times`, in order.
pub open spec fn after_failures(m: BreakerModel, times: Seq<u64>) -> BreakerModel
    decreases times.len(),
{
    if times.len() == 0 {
        m
    } else {
        after_record(after_failures(m, times.drop_last()), false, times.last())
    }
}

proof fn lemma_all_failures(w: Seq<bool>)
    requires
        forall|i: int| 0 <= i < w.len() ==> !w[i],
    ensures
        failures(w) == w.len(),
    decreases w.len(),
{
    if w.len() > 0 {
        lemma_all_failures(w.drop_last());
    }
}

proof fn lemma_failures_accumulate(m: BreakerModel, times: Seq<u64>)
    requires
        breaker_wf(m),
        m.state == BreakerState::Closed,
        m.fail_rate_permille == 1000,
        times.len() <= m.window_size,
    ensures
        ({
            let r = after_failures(m, times);
            &&& breaker_wf(r)
            &&& r.window_size == m.window_size && r.fail_rate_permille == 1000
            &&& r.state is Open || (r.state == BreakerState::Closed && r.window.len() >= times.len()
                && forall|i: int| r.window.len() - times.len() <= i < r.window.len() ==> !r.window[i])
        }),
    decreases times.len(),
{
    if times.len() > 0 {
        let prev = after_failures(m, times.drop_last());
        lemma_failures_accumulate(m, times.drop_last());
        if prev.state == BreakerState::Closed {
            let w = slide(prev, false);
            if w.len() == m.window_size && forall|i: int| 0 <= i < w.len() ==> !w[i] {
                lemma_all_failures(w);
            }
        }
    }
}

/// With a threshold of one (every call in the window failed), a closed
/// breaker that sees as many consecutive failures as its window holds is
/// open afterwards, and rejects every call until its cooldown ends.
pub proof fn lemma_trips_after_full_window_of_failures(m: BreakerModel, times: Seq<u64>, now: u64)
    requires
        breaker_wf(m),
        m.state == BreakerState::Closed,
        m.fail_rate_permille == 1000,
        times.len() == m.window_size,
    ensures
        after_failures(m, times).state is Open,
        now < after_failures(m, times).state->until_ms ==> admission(after_failures(m, times), now)
            == Admission::Reject,
{
    lemma_failures_accumulate(m, times);
    let r = after_failures(m, times);
    if r.state == BreakerState::Closed {
        lemma_all_failures(r.window);
        assert(r.window.len() == m.window_size);
    }
}

/// Once its cooldown has ended, an open breaker admits one probe, and a
/// success of that probe closes it with an empty window.
pub proof fn lemma_recovers_after_cooldown(m: BreakerModel, now: u64, later: u64)
    requires
        breaker_wf(m),
        m.state is Open,
        now >= m.state->until_ms,
    ensures
        admission(m, now) == Admission::Admit,
        admission(after_attempt(m, now), later) == Admission::Reject,
        after_record(after_attempt(m, now), true, later).state == BreakerState::Closed,
        after_record(after_attempt(m, now), true, later).window.len() == 0,
{
}

} // verus!
