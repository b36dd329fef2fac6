//! The scheduler of a batch: which track starts next, and what the batch
//! comes to. At most `parallel` tracks are in flight at any time, a failed
//! track stops no other, and the batch fails with the first failure once
//! every track has ended.

use vstd::prelude::*;
use crate::error::{error_view, outcome_view, DownloadError, DownloadErrorView};

verus! {

/// What the driver of a batch does next.
#[derive(Debug, Clone, Copy, PartialEq, Eq, Structural)]
pub enum BatchAction {
    /// Start the track at this position of the batch.
    Start(usize),
    /// Every slot is taken, or every track is started: wait for a track to end.
    Wait,
    /// Every track has ended.
    Done,
}

/// One step of a batch, as the scheduler sees it.
pub enum BatchStep {
    /// The driver asked what to do next.
    Next,
    /// A track ended with this outcome.
    Complete(Result<(), DownloadErrorView>),
}

/// Mathematical model of [`Batch`].
pub struct BatchView {
    /// Number of tracks of the batch.
    pub total: nat,
    /// The concurrency bound.
    pub parallel: nat,
    /// Tracks started so far; they are started in the order of the batch.
    pub started: nat,
    /// Tracks started and not yet ended.
    pub in_flight: nat,
    /// Tracks that have ended.
    pub finished: nat,
    /// The failure of the first track that ended with one.
    pub first_error: Option<DownloadErrorView>,
}

impl BatchView {
    /// A batch of `total` tracks before any is started.
    pub open spec fn start(total: nat, parallel: nat) -> BatchView {
        BatchView { total, parallel, started: 0, in_flight: 0, finished: 0, first_error: None }
    }

    /// What holds of every batch: the bound is at least one and is kept,
    /// and every started track is in flight or has ended.
    pub open spec fn wf(self) -> bool {
        &&& self.parallel >= 1
        &&& self.started <= self.total
        &&& self.in_flight + self.finished == self.started
        &&& self.in_flight <= self.parallel
    }

    /// Whether another track may start now.
    pub open spec fn can_start(self) -> bool {
        self.started < self.total && self.in_flight < self.parallel
    }

    /// What the driver does next.
    pub open spec fn action(self) -> BatchAction {
        if self.can_start() {
            BatchAction::Start(self.started as usize)
        } else if self.finished < self.total {
            BatchAction::Wait
        } else {
            BatchAction::Done
        }
    }

    /// The batch after the driver took its next action.
    pub open spec fn after_next(self) -> BatchView {
        if self.can_start() {
            BatchView { started: self.started + 1, in_flight: self.in_flight + 1, ..self }
        } else {
            self
        }
    }

    /// Whether a track can be reported as ended.
    pub open spec fn awaits_completion(self) -> bool {
        self.in_flight > 0 && self.finished < self.total
    }

    /// The batch after a track ended with `outcome`. The first failure is
    /// kept; later ones do not replace it.
    pub open spec fn after_complete(self, outcome: Result<(), DownloadErrorView>) -> BatchView {
        if self.awaits_completion() {
            BatchView {
                in_flight: (self.in_flight - 1) as nat,
                finished: self.finished + 1,
                first_error: match (self.first_error, outcome) {
                    (None, Err(error)) => Some(error),
                    _ => self.first_error,
                },
                ..self
            }
        } else {
            self
        }
    }

    /// The batch after one step.
    pub open spec fn step(self, step: BatchStep) -> BatchView {
        match step {
            BatchStep::Next => self.after_next(),
            BatchStep::Complete(outcome) => self.after_complete(outcome),
        }
    }

    /// The batch after a sequence of steps, taken in order.
    pub open spec fn run(self, steps: Seq<BatchStep>) -> BatchView
        decreases steps.len(),
    {
        if steps.len() == 0 {
            self
        } else {
            self.run(steps.drop_last()).step(steps.last())
        }
    }

    /// What the batch came to: nothing while a track is pending, then
    /// success if every track succeeded, and the first failure otherwise.
    pub open spec fn result(self) -> Option<Result<(), DownloadErrorView>> {
        if self.finished < self.total {
            None
        } else {
            match self.first_error {
                Some(error) => Some(Err(error)),
                None => Some(Ok(())),
            }
        }
    }
}

/// Whether step `i` of a run reports the failure of a track that was in
/// flight.
pub open spec fn fails_at(start: BatchView, steps: Seq<BatchStep>, i: int) -> bool {
    &&& 0 <= i < steps.len()
    &&& steps[i] is Complete
    &&& steps[i]->Complete_0 is Err
    &&& start.run(steps.take(i)).awaits_completion()
}

/// Model of an optional outcome.
pub open spec fn result_view(result: Option<Result<(), DownloadError>>) -> Option<
    Result<(), DownloadErrorView>,
> {
    match result {
        Some(outcome) => Some(outcome_view(outcome)),
        None => None,
    }
}

/// The scheduler of one batch.
#[derive(Debug)]
pub struct Batch {
    total: usize,
    parallel: usize,
    started: usize,
    in_flight: usize,
    finished: usize,
    first_error: Option<DownloadError>,
}

impl View for Batch {
    type V = BatchView;

    closed spec fn view(&self) -> BatchView {
        BatchView {
            total: self.total as nat,
            parallel: self.parallel as nat,
            started: self.started as nat,
            in_flight: self.in_flight as nat,
            finished: self.finished as nat,
            first_error: error_view(self.first_error),
        }
    }
}

impl Batch {
    /// The scheduler of a batch of `total` tracks under the bound `parallel`.
    pub fn new(total: usize, parallel: usize) -> (batch: Batch)
        requires
            parallel >= 1,
        ensures
            batch@ == BatchView::start(total as nat, parallel as nat),
            batch@.wf(),
    {
        Batch { total, parallel, started: 0, in_flight: 0, finished: 0, first_error: None }
    }

    /// Says what to do next. Where a track is to start, it counts as in
    /// flight from now on.
    pub fn next(&mut self) -> (action: BatchAction)
        ensures
            action == old(self)@.action(),
            final(self)@ == old(self)@.after_next(),
    {
        if self.started < self.total && self.in_flight < self.parallel {
            let position: usize = self.started;
            self.started = self.started + 1;
            self.in_flight = self.in_flight + 1;
            BatchAction::Start(position)
        } else if self.finished < self.total {
            BatchAction::Wait
        } else {
            BatchAction::Done
        }
    }

    /// Records that a track in flight ended with `outcome`. Returns whether
    /// a track was in flight at all; if none was, nothing changes.
    pub fn complete(&mut self, outcome: Result<(), DownloadError>) -> (accepted: bool)
        ensures
            accepted == old(self)@.awaits_completion(),
            final(self)@ == old(self)@.after_complete(outcome_view(outcome)),
    {
        if self.in_flight > 0 && self.finished < self.total {
            self.in_flight = self.in_flight - 1;
            self.finished = self.finished + 1;
            if self.first_error.is_none() {
                match outcome {
                    Err(error) => {
                        self.first_error = Some(error);
                    },
                    Ok(_) => {},
                }
            }
            true
        } else {
            false
        }
    }

    /// Number of tracks in flight.
    pub fn in_flight(&self) -> (count: usize)
        ensures
            count == self@.in_flight,
    {
        self.in_flight
    }

    /// Number of tracks that have ended.
    pub fn finished(&self) -> (count: usize)
        ensures
            count == self@.finished,
    {
        self.finished
    }

    /// Number of tracks started so far.
    pub fn started(&self) -> (count: usize)
        ensures
            count == self@.started,
    {
        self.started
    }

    /// What the batch came to: nothing while a track is pending, then
    /// success if every track succeeded, and the first failure otherwise.
    pub fn result(&self) -> (result: Option<Result<(), DownloadError>>)
        ensures
            result_view(result) == self@.result(),
    {
        if self.finished < self.total {
            None
        } else {
            match &self.first_error {
                Some(error) => Some(Err(error.duplicate())),
                None => Some(Ok(())),
            }
        }
    }
}

/// A batch starts well-formed if its bound is at least one.
pub proof fn lemma_start_wf(total: nat, parallel: nat)
    requires
        parallel >= 1,
    ensures
        BatchView::start(total, parallel).wf(),
{
}

/// Every step keeps a batch well-formed, and changes neither its size nor
/// its bound.
pub proof fn lemma_step_keeps_wf(batch: BatchView, step: BatchStep)
    requires
        batch.wf(),
    ensures
        batch.step(step).wf(),
        batch.step(step).total == batch.total,
        batch.step(step).parallel == batch.parallel,
{
}

/// Concurrency bound: whatever the driver does and in whatever order the
/// tracks end, at no point of a batch are more tracks in flight than the
/// bound allows.
pub proof fn lemma_concurrency_bound(total: nat, parallel: nat, steps: Seq<BatchStep>)
    requires
        parallel >= 1,
    ensures
        BatchView::start(total, parallel).run(steps).wf(),
        BatchView::start(total, parallel).run(steps).in_flight <= parallel,
        BatchView::start(total, parallel).run(steps).total == total,
        BatchView::start(total, parallel).run(steps).parallel == parallel,
    decreases steps.len(),
{
    if steps.len() > 0 {
        lemma_concurrency_bound(total, parallel, steps.drop_last());
        lemma_step_keeps_wf(BatchView::start(total, parallel).run(steps.drop_last()), steps.last());
    }
}

/// A batch never stalls: while a track is pending, a track can start or a
/// track is in flight and will end. Tracks start in the order of the batch.
pub proof fn lemma_batch_progress(batch: BatchView)
    requires
        batch.wf(),
    ensures
        batch.finished < batch.total ==> batch.can_start() || batch.awaits_completion(),
        batch.can_start() ==> batch.action() == BatchAction::Start(batch.started as usize)
            && batch.after_next().started == batch.started + 1,
        batch.action() == BatchAction::Done <==> batch.finished == batch.total,
{
}

/// A failed track stops no other: but for the failure that is kept, the
/// batch goes on exactly as if the track had succeeded.
pub proof fn lemma_failure_stops_no_other(batch: BatchView, error: DownloadErrorView)
    ensures
        ({
            let failed = batch.after_complete(Err(error));
            let passed = batch.after_complete(Ok(()));
            &&& failed.action() == passed.action()
            &&& failed.started == passed.started
            &&& failed.in_flight == passed.in_flight
            &&& failed.finished == passed.finished
            &&& failed.after_next().started == passed.after_next().started
        }),
{
}

/// The batch reports the first failure: once a failure is recorded no
/// later outcome replaces it, and the first failure of a batch without one
/// is recorded.
pub proof fn lemma_first_failure_is_kept(batch: BatchView, outcome: Result<(), DownloadErrorView>)
    ensures
        batch.first_error is Some ==> batch.after_complete(outcome).first_error
            == batch.first_error,
        batch.first_error is None && batch.awaits_completion() && outcome is Err
            ==> batch.after_complete(outcome).first_error == Some(outcome->Err_0),
        batch.first_error is None && outcome is Ok ==> batch.after_complete(outcome).first_error
            is None,
        batch.after_next().first_error == batch.first_error,
{
}

/// The batch succeeds only if every track succeeded: it has no result
/// while a track is pending, and then fails exactly if a failure was
/// recorded.
pub proof fn lemma_batch_result(batch: BatchView)
    requires
        batch.wf(),
    ensures
        batch.result() is None <==> batch.finished < batch.total,
        batch.result() == Some(Ok::<(), DownloadErrorView>(())) <==> batch.finished == batch.total
            && batch.first_error is None,
        batch.result() is Some ==> batch.in_flight == 0 && batch.started == batch.total,
        forall|error: DownloadErrorView|
            batch.result() == Some(Err::<(), DownloadErrorView>(error)) <==> batch.finished
                == batch.total && batch.first_error == Some(error),
{
}

/// Over a whole run the batch records a failure exactly if some track in
/// flight was reported as failed, and the failure it records is that of
/// the first such report.
pub proof fn lemma_first_failure_reported(start: BatchView, steps: Seq<BatchStep>)
    requires
        start.first_error is None,
    ensures
        start.run(steps).first_error is None <==> forall|i: int| !fails_at(start, steps, i),
        forall|i: int|
            fails_at(start, steps, i) && (forall|j: int| j < i ==> !fails_at(start, steps, j))
                ==> start.run(steps).first_error == Some(steps[i]->Complete_0->Err_0),
    decreases steps.len(),
{
    if steps.len() == 0 {
    } else {
        let prefix = steps.drop_last();
        let last = steps.len() - 1;
        lemma_first_failure_reported(start, prefix);
        assert(steps.take(last) =~= prefix);
        assert forall|i: int| i < last implies fails_at(start, steps, i) == fails_at(
            start,
            prefix,
            i,
        ) by {
            if 0 <= i {
                assert(steps.take(i) =~= prefix.take(i));
                assert(steps[i] == prefix[i]);
            }
        }
        let before = start.run(prefix);
        if before.first_error is Some {
            let k = choose|k: int| fails_at(start, prefix, k);
            assert(fails_at(start, steps, k));
            assert forall|i: int|
                fails_at(start, steps, i) && (forall|j: int|
                    j < i ==> !fails_at(start, steps, j)) implies start.run(steps).first_error
                == Some(steps[i]->Complete_0->Err_0) by {
                if i == last {
                    assert(k < i);
                    assert(!fails_at(start, steps, k));
                } else {
                    assert(fails_at(start, prefix, i));
                    assert forall|j: int| j < i implies !fails_at(start, prefix, j) by {
                        assert(!fails_at(start, steps, j));
                    }
                }
            }
        } else {
            assert forall|i: int| i < last implies !fails_at(start, steps, i) by {
                assert(!fails_at(start, prefix, i));
            }
            if fails_at(start, steps, last) {
            } else {
                assert forall|i: int| !fails_at(start, steps, i) by {
                    if i < last {
                        assert(!fails_at(start, prefix, i));
                    }
                }
            }
        }
    }
}

} // verus!
