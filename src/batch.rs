use vstd::prelude::*;

verus! {

/// The decisions of a fail-fast batch run over `total` independent units of
/// work with at most `capacity` in flight. The caller starts the units that
/// `start_next` hands out and reports each one's end with `finish`. Once a
/// unit has failed no further unit is started; units already in flight may
/// still finish, and the run's result is the first failure reported.
#[derive(Clone, Copy, PartialEq, Eq, Debug, Structural)]
pub struct Batch {
    pub total: usize,
    pub capacity: usize,
    pub started: usize,
    pub running: usize,
    pub failure: Option<usize>,
}

impl Batch {
    pub open spec fn wf(self) -> bool {
        &&& self.capacity > 0
        &&& self.running <= self.started <= self.total
        &&& self.running <= self.capacity
        &&& self.failure matches Some(k) ==> k < self.started
    }

    /// Whether a unit may start now: no failure so far, units left, room free.
    pub open spec fn may_start(self) -> bool {
        self.failure is None && self.started < self.total && self.running < self.capacity
    }

    /// The unit that starts next, if any, and the state after.
    pub open spec fn start_spec(self) -> (Option<usize>, Batch) {
        if self.may_start() {
            (Some(self.started), Batch { started: (self.started + 1) as usize, running: (self.running + 1) as usize, ..self })
        } else {
            (None, self)
        }
    }

    /// The state after `unit` ended, well or not; the first failure is kept.
    pub open spec fn finish_spec(self, unit: usize, ok: bool) -> Batch {
        Batch {
            running: (self.running - 1) as usize,
            failure: if self.failure is None && !ok { Some(unit) } else { self.failure },
            ..self
        }
    }

    /// Whether the run is over: nothing in flight and nothing more to start.
    pub open spec fn done(self) -> bool {
        self.running == 0 && (self.failure is Some || self.started == self.total)
    }

    /// A run of `total` units with room for `capacity` at a time.
    pub fn new(total: usize, capacity: usize) -> (r: Batch)
        requires
            capacity > 0,
        ensures
            r.wf(),
            r == (Batch { total, capacity, started: 0, running: 0, failure: None }),
    {
        Batch { total, capacity, started: 0, running: 0, failure: None }
    }

    /// Hands out the next unit to start, if one may start now.
    pub fn start_next(&mut self) -> (r: Option<usize>)
        requires
            old(self).wf(),
        ensures
            (r, *final(self)) == old(self).start_spec(),
            final(self).wf(),
    {
        if self.failure.is_none() && self.started < self.total && self.running < self.capacity {
            let unit = self.started;
            self.started = self.started + 1;
            self.running = self.running + 1;
            Some(unit)
        } else {
            None
        }
    }

    /// Records that a unit in flight has ended, and whether it succeeded.
    pub fn finish(&mut self, unit: usize, ok: bool)
        requires
            old(self).wf(),
            old(self).running > 0,
            unit < old(self).started,
        ensures
            *final(self) == old(self).finish_spec(unit, ok),
            final(self).wf(),
    {
        self.running = self.running - 1;
        if self.failure.is_none() && !ok {
            self.failure = Some(unit);
        }
    }

    /// The run's result once it is over: `Ok` when every unit succeeded, else
    /// the first failed unit. `None` while the run is not over.
    pub fn outcome(&self) -> (r: Option<Result<(), usize>>)
        ensures
            r is Some <==> self.done(),
            r matches Some(x) ==> x == match self.failure {
                Some(k) => Err(k),
                None => Ok::<(), usize>(()),
            },
    {
        if self.running != 0 {
            return None;
        }
        match self.failure {
            Some(k) => Some(Err(k)),
            None => if self.started == self.total {
                Some(Ok(()))
            } else {
                None
            },
        }
    }
}

/// Once a unit has failed, no unit starts any more, whatever ends after: the
/// number of started units stays as it was when the failure was reported, and
/// the reported failure stays the first one.
pub proof fn lemma_fail_fast(b: Batch, unit: usize, ok: bool)
    requires
        b.wf(),
        b.failure is Some,
    ensures
        b.start_spec() == (None::<usize>, b),
        b.running > 0 ==> b.finish_spec(unit, ok).started == b.started && b.finish_spec(unit, ok).failure
            == b.failure,
{
}

/// The failure that a run reports is a unit that was reported as failed.
pub proof fn lemma_failure_is_reported(b: Batch, unit: usize, ok: bool)
    requires
        b.wf(),
        b.failure is None,
        b.running > 0,
    ensures
        b.finish_spec(unit, ok).failure matches Some(k) ==> k == unit && !ok,
{
}

/// One decision or report of a run: asking for the next unit, or a unit's end.
pub enum BatchEvent {
    Start,
    Finish(usize, bool),
}

/// Whether an event may happen in a state: a unit can only end while it is in
/// flight, so there must be one running, started before.
pub open spec fn event_ok(b: Batch, e: BatchEvent) -> bool {
    match e {
        BatchEvent::Start => true,
        BatchEvent::Finish(unit, _) => b.running > 0 && unit < b.started,
    }
}

pub open spec fn step(b: Batch, e: BatchEvent) -> Batch {
    match e {
        BatchEvent::Start => b.start_spec().1,
        BatchEvent::Finish(unit, ok) => b.finish_spec(unit, ok),
    }
}

/// The state after the events, in order, where each may happen.
pub open spec fn run(b: Batch, es: Seq<BatchEvent>) -> Batch
    decreases es.len(),
{
    if es.len() == 0 {
        b
    } else {
        run(step(b, es[0]), es.drop_first())
    }
}

/// Whether every event of the run may happen when it does.
pub open spec fn run_ok(b: Batch, es: Seq<BatchEvent>) -> bool
    decreases es.len(),
{
    es.len() == 0 || (event_ok(b, es[0]) && run_ok(step(b, es[0]), es.drop_first()))
}

proof fn lemma_step_wf(b: Batch, e: BatchEvent)
    requires
        b.wf(),
        event_ok(b, e),
    ensures
        step(b, e).wf(),
{
}

/// Over a whole run: once a failure has been reported, no further unit
/// starts, whatever happens after, and the reported failure stays the same.
pub proof fn lemma_run_fail_fast(b: Batch, es: Seq<BatchEvent>)
    requires
        b.wf(),
        b.failure is Some,
        run_ok(b, es),
    ensures
        run(b, es).started == b.started,
        run(b, es).failure == b.failure,
    decreases es.len(),
{
    if es.len() > 0 {
        lemma_step_wf(b, es[0]);
        lemma_run_fail_fast(step(b, es[0]), es.drop_first());
    }
}

/// Over a whole run that began without a failure: the failure it reports, if
/// any, is a unit that some event reported as failed.
pub proof fn lemma_run_failure_reported(b: Batch, es: Seq<BatchEvent>)
    requires
        b.wf(),
        b.failure is None,
        run_ok(b, es),
    ensures
        run(b, es).failure matches Some(k) ==> exists|i: int|
            0 <= i < es.len() && #[trigger] es[i] == BatchEvent::Finish(k, false),
    decreases es.len(),
{
    if es.len() > 0 {
        let b1 = step(b, es[0]);
        lemma_step_wf(b, es[0]);
        let rest = es.drop_first();
        if b1.failure is None {
            lemma_run_failure_reported(b1, rest);
            if let Some(k) = run(b, es).failure {
                let i = choose|i: int| 0 <= i < rest.len() && #[trigger] rest[i] == BatchEvent::Finish(k, false);
                assert(es[i + 1] == rest[i]);
            }
        } else {
            lemma_run_fail_fast(b1, rest);
            assert(es[0] == BatchEvent::Finish(b1.failure->0, false));
        }
    }
}

} // verus!
