use vstd::prelude::*;

verus! {

/// What happened to a hedged race; times are milliseconds since the race
/// began.
#[derive(Clone, Copy, Debug, PartialEq, Eq, Structural)]
pub enum HedgeEvent {
    /// The hedge timer or the deadline timer fired.
    Tick { now_ms: u64 },
    /// Backend `index` answered successfully.
    Succeeded { index: usize, now_ms: u64 },
    /// Backend `index` failed.
    Failed { index: usize, now_ms: u64 },
}

/// What the caller must do next.
#[derive(Clone, Copy, Debug, PartialEq, Eq, Structural)]
pub enum HedgeAction {
    /// Start the backends from the previously launched count up to `upto`
    /// (exclusive), each with `budget_ms` left.
    Launch { upto: usize, budget_ms: u64 },
    /// Nothing to start; keep waiting.
    Wait,
    /// Backend `index` won: cancel every other call and return its answer.
    Win { index: usize },
    /// The race is lost: cancel every call and report the first error seen
    /// (`None` means the deadline passed before any call ended).
    GiveUp { first_error: Option<usize> },
}

/// The state of a staggered race over `n` backends, in priority order:
/// backend `i` is due `i * hedge_after_ms` after the start.
#[derive(Clone, Copy, Debug, PartialEq, Eq, Structural)]
pub struct Hedger {
    pub n: usize,
    pub hedge_after_ms: u64,
    pub deadline_ms: u64,
    pub launched: usize,
    pub failed: usize,
    pub first_error: Option<usize>,
    pub done: bool,
}

pub open spec fn hedger_wf(h: Hedger) -> bool {
    &&& h.launched <= h.n
    &&& h.failed <= h.launched
    &&& h.first_error matches Some(i) ==> i < h.launched
}

/// How many backends are due by `now`.
pub open spec fn due(h: Hedger, now: u64) -> nat {
    if h.hedge_after_ms == 0 {
        h.n as nat
    } else {
        let k = (now / h.hedge_after_ms) as nat + 1;
        if k < h.n { k } else { h.n as nat }
    }
}

pub open spec fn event_time(e: HedgeEvent) -> u64 {
    match e {
        HedgeEvent::Tick { now_ms } => now_ms,
        HedgeEvent::Succeeded { now_ms, .. } => now_ms,
        HedgeEvent::Failed { now_ms, .. } => now_ms,
    }
}

/// Launches what is due at `now`, if anything.
pub open spec fn launch_due(h: Hedger, now: u64) -> (Hedger, HedgeAction) {
    if due(h, now) > h.launched {
        (
            Hedger { launched: due(h, now) as usize, ..h },
            HedgeAction::Launch { upto: due(h, now) as usize, budget_ms: (h.deadline_ms - now) as u64 },
        )
    } else {
        (h, HedgeAction::Wait)
    }
}

/// One step of the race.
pub open spec fn hedge_step(h: Hedger, e: HedgeEvent) -> (Hedger, HedgeAction) {
    let now = event_time(e);
    if h.done {
        (h, HedgeAction::Wait)
    } else if now >= h.deadline_ms {
        (Hedger { done: true, ..h }, HedgeAction::GiveUp { first_error: h.first_error })
    } else {
        match e {
            HedgeEvent::Tick { .. } => launch_due(h, now),
            HedgeEvent::Succeeded { index, .. } => if index < h.launched {
                (Hedger { done: true, ..h }, HedgeAction::Win { index })
            } else {
                (h, HedgeAction::Wait)
            },
            HedgeEvent::Failed { index, .. } => if index < h.launched && h.failed < h.launched {
                let h1 = Hedger {
                    failed: (h.failed + 1) as usize,
                    first_error: if h.first_error is None { Some(index) } else { h.first_error },
                    ..h
                };
                if h1.failed == h.n {
                    (Hedger { done: true, ..h1 }, HedgeAction::GiveUp { first_error: h1.first_error })
                } else {
                    launch_due(h1, now)
                }
            } else {
                (h, HedgeAction::Wait)
            },
        }
    }
}

/// A race over `n` backends that has launched none yet.
pub open spec fn fresh(n: usize, hedge_after_ms: u64, deadline_ms: u64) -> Hedger {
    Hedger { n, hedge_after_ms, deadline_ms, launched: 0, failed: 0, first_error: None, done: false }
}

impl Hedger {
    /// A race over `n` backends that has launched none yet.
    pub fn new(n: usize, hedge_after_ms: u64, deadline_ms: u64) -> (r: Hedger)
        ensures
            hedger_wf(r),
            r == fresh(n, hedge_after_ms, deadline_ms),
    {
        Hedger { n, hedge_after_ms, deadline_ms, launched: 0, failed: 0, first_error: None, done: false }
    }

    fn launch_due(&mut self, now: u64) -> (r: HedgeAction)
        requires
            hedger_wf(*old(self)),
            now < old(self).deadline_ms,
        ensures
            (*final(self), r) == launch_due(*old(self), now),
            hedger_wf(*final(self)),
    {
        let d: usize = if self.hedge_after_ms == 0 {
            self.n
        } else {
            let k: u64 = now / self.hedge_after_ms;
            if k < self.n as u64 && ((k + 1) as usize) < self.n { (k + 1) as usize } else { self.n }
        };
        if d > self.launched {
            self.launched = d;
            HedgeAction::Launch { upto: d, budget_ms: self.deadline_ms - now }
        } else {
            HedgeAction::Wait
        }
    }

    /// Feeds one event to the race and says what to do next.
    pub fn step(&mut self, e: HedgeEvent) -> (r: HedgeAction)
        requires
            hedger_wf(*old(self)),
        ensures
            (*final(self), r) == hedge_step(*old(self), e),
            hedger_wf(*final(self)),
    {
        let now = match e {
            HedgeEvent::Tick { now_ms } => now_ms,
            HedgeEvent::Succeeded { now_ms, .. } => now_ms,
            HedgeEvent::Failed { now_ms, .. } => now_ms,
        };
        if self.done {
            return HedgeAction::Wait;
        }
        if now >= self.deadline_ms {
            self.done = true;
            return HedgeAction::GiveUp { first_error: self.first_error };
        }
        match e {
            HedgeEvent::Tick { .. } => self.launch_due(now),
            HedgeEvent::Succeeded { index, .. } => {
                if index < self.launched {
                    self.done = true;
                    HedgeAction::Win { index }
                } else {
                    HedgeAction::Wait
                }
            },
            HedgeEvent::Failed { index, .. } => {
                if index < self.launched && self.failed < self.launched {
                    self.failed = self.failed + 1;
                    if self.first_error.is_none() {
                        self.first_error = Some(index);
                    }
                    if self.failed == self.n {
                        self.done = true;
                        HedgeAction::GiveUp { first_error: self.first_error }
                    } else {
                        self.launch_due(now)
                    }
                } else {
                    HedgeAction::Wait
                }
            },
        }
    }
}

/// The race after a series of events.
pub open spec fn hedge_run(h: Hedger, es: Seq<HedgeEvent>) -> Hedger
    decreases es.len(),
{
    if es.len() == 0 {
        h
    } else {
        hedge_step(hedge_run(h, es.drop_last()), es.last()).0
    }
}

proof fn lemma_run_wf(h: Hedger, es: Seq<HedgeEvent>)
    requires
        hedger_wf(h),
    ensures
        hedger_wf(hedge_run(h, es)),
        hedge_run(h, es).n == h.n && hedge_run(h, es).hedge_after_ms == h.hedge_after_ms,
        hedge_run(h, es).launched >= h.launched,
        h.done ==> hedge_run(h, es) == h,
    decreases es.len(),
{
    if es.len() > 0 {
        lemma_run_wf(h, es.drop_last());
    }
}

proof fn lemma_before_hedge_delay(h: Hedger, es: Seq<HedgeEvent>)
    requires
        hedger_wf(h),
        h.launched <= 1,
        h.hedge_after_ms > 0,
        forall|i: int| 0 <= i < es.len() ==> event_time(#[trigger] es[i]) < h.hedge_after_ms,
    ensures
        hedge_run(h, es).launched <= 1,
    decreases es.len(),
{
    if es.len() > 0 {
        lemma_before_hedge_delay(h, es.drop_last());
        lemma_run_wf(h, es.drop_last());
        let t = event_time(es.last());
        assert(t / h.hedge_after_ms == 0) by (nonlinear_arith)
            requires t < h.hedge_after_ms;
    }
}

/// Hedging order: when the first backend has been started and answers
/// successfully before the hedge delay has passed, and nothing before that
/// happened later than the delay, no other backend is ever started, whatever
/// events follow.
pub proof fn lemma_early_winner_starts_no_other(
    n: usize,
    hedge_after_ms: u64,
    deadline_ms: u64,
    before: Seq<HedgeEvent>,
    t: u64,
    after: Seq<HedgeEvent>,
)
    requires
        hedge_after_ms > 0,
        forall|i: int| 0 <= i < before.len() ==> event_time(#[trigger] before[i]) < hedge_after_ms,
        hedge_run(fresh(n, hedge_after_ms, deadline_ms), before).launched >= 1,
        t < hedge_after_ms,
    ensures
        hedge_run(
            fresh(n, hedge_after_ms, deadline_ms),
            before.push(HedgeEvent::Succeeded { index: 0, now_ms: t }) + after,
        ).launched == 1,
{
    let h0 = fresh(n, hedge_after_ms, deadline_ms);
    let es = before.push(HedgeEvent::Succeeded { index: 0, now_ms: t });
    assert(forall|i: int| 0 <= i < es.len() ==> event_time(#[trigger] es[i]) < hedge_after_ms);
    lemma_before_hedge_delay(h0, es);
    lemma_run_wf(h0, before);
    assert(es.drop_last() =~= before);
    let hs = hedge_run(h0, es);
    assert(hs.done);
    lemma_run_wf(hs, after);
    lemma_run_concat(h0, es, after);
}

proof fn lemma_run_concat(h: Hedger, a: Seq<HedgeEvent>, b: Seq<HedgeEvent>)
    ensures
        hedge_run(h, a + b) == hedge_run(hedge_run(h, a), b),
    decreases b.len(),
{
    if b.len() == 0 {
        assert(a + b =~= a);
    } else {
        lemma_run_concat(h, a, b.drop_last());
        assert((a + b).drop_last() =~= a + b.drop_last());
        assert((a + b).last() == b.last());
    }
}

/// Deadline propagation: every call the race starts is given exactly the
/// time left until the race's deadline, and at or after the deadline the
/// race starts nothing and names no winner.
pub proof fn lemma_calls_end_by_deadline(h: Hedger, e: HedgeEvent)
    requires
        hedger_wf(h),
    ensures
        hedge_step(h, e).1 matches HedgeAction::Launch { budget_ms, .. } ==> event_time(e) < h.deadline_ms
            && event_time(e) + budget_ms == h.deadline_ms,
        event_time(e) >= h.deadline_ms ==> hedge_step(h, e).1 is GiveUp || hedge_step(h, e).1 is Wait,
{
}

} // verus!
