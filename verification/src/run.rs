//! The lifecycle of one run: idle, running, stopping, completed. The handle
//! enforces the deadline, publishes progress that never goes back, turns
//! counters into samples, and sums the final counters into the total.
use crate::worker::{lemma_total_fits, lemma_total_monotone, total_count, total_of};
use vstd::prelude::*;

verus! {

/// Where a run stands.
#[derive(Clone, Copy, Debug, PartialEq, Eq, Structural)]
pub enum RunState {
    /// No run is active.
    Idle,
    /// Workers and the sampler are at work.
    Running,
    /// A stop was requested or the deadline passed; workers are draining.
    Stopping,
    /// Every worker has returned and the total is final.
    Completed,
}

/// Why a request to a run was turned down. A request that is turned down
/// changes nothing.
#[derive(Clone, Copy, Debug, PartialEq, Eq, Structural)]
pub enum RunError {
    /// A run is already active.
    Busy,
    /// The run is not in a state that takes the request.
    NotActive,
    /// The counters handed in are not one per thread.
    WrongThreadCount,
    /// A counter is lower than when it was last read.
    CounterWentBack,
    /// No time has passed since the last sample.
    NoTimePassed,
}

/// One point of a run's time series: the operations counted in an interval
/// that ended `elapsed_nanos` after the run began. The throughput is the
/// operations over the interval.
#[derive(Clone, Copy, Debug, PartialEq, Eq, Structural)]
pub struct Sample {
    pub elapsed_nanos: u64,
    pub operations: u128,
    pub interval_nanos: u64,
}

/// How far a run has come: `done_nanos` of `whole_nanos`. A run with no
/// duration is complete from the start.
#[derive(Clone, Copy, Debug, PartialEq, Eq, Structural)]
pub struct Progress {
    pub done_nanos: u64,
    pub whole_nanos: u64,
}

impl Progress {
    /// The run has come all the way.
    pub open spec fn is_full(self) -> bool {
        self.done_nanos == self.whole_nanos
    }

    /// Whether the run has come all the way.
    pub fn full(&self) -> (r: bool)
        ensures
            r == self.is_full(),
    {
        self.done_nanos == self.whole_nanos
    }
}

/// The nanoseconds in a second.
pub const NANOS_PER_SEC: u64 = 1_000_000_000;

/// The time that has passed at `now` since `started_at`; none where the clock
/// reads earlier than the start.
pub open spec fn elapsed_since(started_at: u64, now: u64) -> u64 {
    if now >= started_at {
        (now - started_at) as u64
    } else {
        0
    }
}

/// The progress to publish at `elapsed` for a run that had published
/// `before`: the elapsed time, never past the duration and never behind what
/// was published.
pub open spec fn progress_at(before: u64, elapsed: u64, duration: u64) -> u64 {
    let capped = if elapsed < duration {
        elapsed
    } else {
        duration
    };
    if capped > before {
        capped
    } else {
        before
    }
}

/// The samples are in strictly increasing order of elapsed time.
pub open spec fn increasing(samples: Seq<Sample>) -> bool {
    forall|i: int, j: int|
        0 <= i < j < samples.len() ==> (#[trigger] samples[i]).elapsed_nanos < (
        #[trigger] samples[j]).elapsed_nanos
}

/// A sample later than the last of an increasing series keeps the series
/// increasing.
pub proof fn lemma_later_sample(samples: Seq<Sample>, next: Sample)
    requires
        increasing(samples),
        samples.len() > 0 ==> samples.last().elapsed_nanos < next.elapsed_nanos,
    ensures
        increasing(samples.push(next)),
{
    let after = samples.push(next);
    assert forall|i: int, j: int| 0 <= i < j < after.len() implies (
    #[trigger] after[i]).elapsed_nanos < (#[trigger] after[j]).elapsed_nanos by {
        assert(after[i] == samples[i]);
        if j < samples.len() {
            assert(after[j] == samples[j]);
        } else if i < samples.len() - 1 {
            assert(samples[i].elapsed_nanos < samples[samples.len() - 1].elapsed_nanos);
        }
    }
}

/// No counter of `after` is lower than the one of `before` in its place.
pub open spec fn advanced(before: Seq<u64>, after: Seq<u64>) -> bool {
    before.len() == after.len() && forall|i: int|
        0 <= i < before.len() ==> before[i] <= #[trigger] after[i]
}

/// What a run handle holds, as plain values.
pub struct RunView {
    pub state: RunState,
    pub started_at: u64,
    pub duration_nanos: u64,
    pub progress_nanos: u64,
    pub counters: Seq<u64>,
    pub samples: Seq<Sample>,
    pub total: Option<u128>,
}

/// The state of one run slot: at most one run is active in it at a time.
/// Times are nanoseconds on a clock of the caller's that does not run
/// backwards.
pub struct RunHandle {
    state: RunState,
    started_at: u64,
    duration_nanos: u64,
    progress_nanos: u64,
    counters: Vec<u64>,
    counted: u128,
    sampled_at: u64,
    samples: Vec<Sample>,
    total: Option<u128>,
}

impl View for RunHandle {
    type V = RunView;

    closed spec fn view(&self) -> RunView {
        RunView {
            state: self.state,
            started_at: self.started_at,
            duration_nanos: self.duration_nanos,
            progress_nanos: self.progress_nanos,
            counters: self.counters@,
            samples: self.samples@,
            total: self.total,
        }
    }
}

impl RunView {
    /// The elapsed time of the last sample, and none before the first.
    pub open spec fn sampled_at(self) -> u64 {
        if self.samples.len() > 0 {
            self.samples.last().elapsed_nanos
        } else {
            0
        }
    }

    /// A run is running or stopping.
    pub open spec fn active(self) -> bool {
        self.state == RunState::Running || self.state == RunState::Stopping
    }

    /// The time that has passed at `now` since the run began.
    pub open spec fn elapsed(self, now: u64) -> u64 {
        elapsed_since(self.started_at, now)
    }

    /// A run of `threads` workers for `duration_secs` seconds, just started
    /// at the time `now`.
    pub open spec fn started(now: u64, duration_secs: u32, threads: usize) -> RunView {
        RunView {
            state: RunState::Running,
            started_at: now,
            duration_nanos: (duration_secs * NANOS_PER_SEC) as u64,
            progress_nanos: 0,
            counters: Seq::new(threads as nat, |i: int| 0u64),
            samples: Seq::empty(),
            total: None,
        }
    }

    /// The run after a request to stop: a running run is stopping, any other
    /// is as it was.
    pub open spec fn stopped(self) -> RunView {
        if self.state == RunState::Running {
            RunView { state: RunState::Stopping, ..self }
        } else {
            self
        }
    }

    /// The run after a poll at the time `now`: an active run publishes its
    /// progress, and a running run whose duration has passed is stopping; a
    /// run that is not active is as it was.
    pub open spec fn polled(self, now: u64) -> RunView {
        if self.active() {
            RunView {
                state: if self.elapsed(now) >= self.duration_nanos {
                    RunState::Stopping
                } else {
                    self.state
                },
                progress_nanos: progress_at(
                    self.progress_nanos,
                    self.elapsed(now),
                    self.duration_nanos,
                ),
                ..self
            }
        } else {
            self
        }
    }

    /// Why counters that were read cannot be taken, if they cannot: they are
    /// not one per thread, or one of them went back.
    pub open spec fn refusal(self, counters: Seq<u64>) -> Option<RunError> {
        if counters.len() != self.counters.len() {
            Some(RunError::WrongThreadCount)
        } else if !advanced(self.counters, counters) {
            Some(RunError::CounterWentBack)
        } else {
            None
        }
    }

    /// The sample that counters read at the time `now` add to the run: the
    /// operations counted and the time passed since the last sample.
    pub open spec fn next_sample(self, now: u64, counters: Seq<u64>) -> Sample {
        Sample {
            elapsed_nanos: self.elapsed(now),
            operations: (total_of(counters) - total_of(self.counters)) as u128,
            interval_nanos: (self.elapsed(now) - self.sampled_at()) as u64,
        }
    }

    /// What a request for a sample at the time `now` comes to.
    pub open spec fn sample_outcome(self, now: u64, counters: Seq<u64>) -> Result<
        Sample,
        RunError,
    > {
        if !self.active() {
            Err(RunError::NotActive)
        } else if self.refusal(counters) is Some {
            Err(self.refusal(counters)->Some_0)
        } else if self.elapsed(now) <= self.sampled_at() {
            Err(RunError::NoTimePassed)
        } else {
            Ok(self.next_sample(now, counters))
        }
    }

    /// The run after a request for a sample: with the counters taken and the
    /// sample added where one was made, and as it was where none was.
    pub open spec fn sampled(self, now: u64, counters: Seq<u64>) -> RunView {
        match self.sample_outcome(now, counters) {
            Ok(sample) => RunView { counters, samples: self.samples.push(sample), ..self },
            Err(_) => self,
        }
    }

    /// What a request to complete comes to: the total, which is the sum of
    /// the final counters.
    pub open spec fn completion_outcome(self, counters: Seq<u64>) -> Result<u128, RunError> {
        if self.state != RunState::Stopping {
            Err(RunError::NotActive)
        } else if self.refusal(counters) is Some {
            Err(self.refusal(counters)->Some_0)
        } else {
            Ok(total_of(counters) as u128)
        }
    }

    /// The run after a request to complete at the time `now`: completed,
    /// with the final counters, a last sample where time has passed since
    /// the one before, full progress and the total; and as it was where the
    /// request was turned down.
    pub open spec fn completed(self, now: u64, counters: Seq<u64>) -> RunView {
        match self.completion_outcome(counters) {
            Ok(total) => RunView {
                state: RunState::Completed,
                progress_nanos: self.duration_nanos,
                counters,
                samples: if self.elapsed(now) > self.sampled_at() {
                    self.samples.push(self.next_sample(now, counters))
                } else {
                    self.samples
                },
                total: Some(total),
                ..self
            },
            Err(_) => self,
        }
    }

    /// The run after its total was handed on: a completed run is idle, any
    /// other is as it was.
    pub open spec fn published(self) -> RunView {
        if self.state == RunState::Completed {
            RunView { state: RunState::Idle, ..self }
        } else {
            self
        }
    }

    /// What holds of every run: progress never passes the duration, the
    /// samples are in increasing order, and a completed run shows full
    /// progress and the sum of its counters as its total.
    pub open spec fn valid(self) -> bool {
        &&& self.progress_nanos <= self.duration_nanos
        &&& increasing(self.samples)
        &&& self.state == RunState::Completed ==> self.progress_nanos == self.duration_nanos
            && self.total == Some(total_of(self.counters) as u128)
    }
}

impl RunHandle {
    /// The handle is consistent.
    pub closed spec fn wf(&self) -> bool {
        &&& self@.valid()
        &&& self.counted == total_of(self.counters@)
        &&& self.sampled_at == self@.sampled_at()
    }

    /// A consistent handle holds a valid run.
    pub proof fn lemma_valid(&self)
        requires
            self.wf(),
        ensures
            self@.valid(),
    {
    }

    /// A handle with no run in it.
    pub fn new() -> (h: Self)
        ensures
            h.wf(),
            h@ == (RunView {
                state: RunState::Idle,
                started_at: 0,
                duration_nanos: 0,
                progress_nanos: 0,
                counters: Seq::empty(),
                samples: Seq::empty(),
                total: None,
            }),
    {
        RunHandle {
            state: RunState::Idle,
            started_at: 0,
            duration_nanos: 0,
            progress_nanos: 0,
            counters: Vec::new(),
            counted: 0,
            sampled_at: 0,
            samples: Vec::new(),
            total: None,
        }
    }

    /// Where the run stands.
    pub fn state(&self) -> (s: RunState)
        ensures
            s == self@.state,
    {
        self.state
    }

    /// Whether workers are to stop: true unless a run is running.
    pub fn stop_signal(&self) -> (stop: bool)
        ensures
            stop == (self@.state != RunState::Running),
    {
        match self.state {
            RunState::Running => false,
            _ => true,
        }
    }

    /// The total of the last completed run, until the next one starts.
    pub fn total(&self) -> (t: Option<u128>)
        ensures
            t == self@.total,
    {
        self.total
    }

    /// The sum of the counters as they were last read.
    pub fn counted(&self) -> (n: u128)
        requires
            self.wf(),
        ensures
            n == total_of(self@.counters),
    {
        self.counted
    }

    /// The counters as they were last read.
    pub fn counters(&self) -> (c: &Vec<u64>)
        ensures
            c@ == self@.counters,
    {
        &self.counters
    }

    /// The time series so far.
    pub fn samples(&self) -> (s: &Vec<Sample>)
        ensures
            s@ == self@.samples,
    {
        &self.samples
    }

    /// The progress last published.
    pub fn progress(&self) -> (p: Progress)
        ensures
            p.done_nanos == self@.progress_nanos,
            p.whole_nanos == self@.duration_nanos,
    {
        Progress { done_nanos: self.progress_nanos, whole_nanos: self.duration_nanos }
    }

    /// The time that has passed at `now` since the run began.
    pub fn elapsed(&self, now: u64) -> (e: u64)
        ensures
            e == elapsed_since(self@.started_at, now),
    {
        if now >= self.started_at {
            now - self.started_at
        } else {
            0
        }
    }

    /// Starts a run of `threads` workers for `duration_secs` seconds at the
    /// time `now`. Turned down with `Busy` while a run is running or
    /// stopping. A run that starts is running, with no progress, a zero
    /// counter per thread, no samples and no total.
    pub fn start(&mut self, now: u64, duration_secs: u32, threads: usize) -> (r: Result<
        (),
        RunError,
    >)
        requires
            old(self).wf(),
        ensures
            final(self).wf(),
            r is Err <==> old(self)@.active(),
            r is Err ==> r == Err::<(), RunError>(RunError::Busy) && final(self)@ == old(self)@,
            r is Ok ==> final(self)@ == RunView::started(now, duration_secs, threads),
    {
        match self.state {
            RunState::Running | RunState::Stopping => {
                return Err(RunError::Busy);
            },
            _ => {},
        }
        let mut counters: Vec<u64> = Vec::new();
        let mut i: usize = 0;
        while i < threads
            invariant
                i <= threads,
                counters@ == Seq::new(i as nat, |j: int| 0u64),
                total_of(counters@) == 0,
            decreases threads - i,
        {
            let ghost before = counters@;
            counters.push(0);
            i += 1;
            proof {
                assert(counters@.drop_last() == before);
                assert(counters@ =~= Seq::new(i as nat, |j: int| 0u64));
            }
        }
        self.state = RunState::Running;
        self.started_at = now;
        self.duration_nanos = (duration_secs as u64) * NANOS_PER_SEC;
        self.progress_nanos = 0;
        self.counters = counters;
        self.counted = 0;
        self.sampled_at = 0;
        self.samples = Vec::new();
        self.total = None;
        Ok(())
    }

    /// Asks a running run to stop. Gives whether the request changed
    /// anything: a run that is not running stays as it is.
    pub fn request_stop(&mut self) -> (changed: bool)
        requires
            old(self).wf(),
        ensures
            final(self).wf(),
            changed == (old(self)@.state == RunState::Running),
            final(self)@ == old(self)@.stopped(),
    {
        match self.state {
            RunState::Running => {
                self.state = RunState::Stopping;
                true
            },
            _ => false,
        }
    }

    /// Publishes the progress at the time `now` and enforces the deadline: a
    /// running run whose duration has passed begins to stop. Progress never
    /// goes back and never passes the duration; outside an active run the
    /// poll changes nothing.
    pub fn poll(&mut self, now: u64) -> (p: Progress)
        requires
            old(self).wf(),
        ensures
            final(self).wf(),
            final(self)@ == old(self)@.polled(now),
            p.done_nanos == final(self)@.progress_nanos,
            p.whole_nanos == final(self)@.duration_nanos,
    {
        match self.state {
            RunState::Running | RunState::Stopping => {
                let elapsed = self.elapsed(now);
                let capped = if elapsed < self.duration_nanos {
                    elapsed
                } else {
                    self.duration_nanos
                };
                if capped > self.progress_nanos {
                    self.progress_nanos = capped;
                }
                if elapsed >= self.duration_nanos {
                    match self.state {
                        RunState::Running => {
                            self.state = RunState::Stopping;
                        },
                        _ => {},
                    }
                }
            },
            _ => {},
        }
        self.progress()
    }

    /// Whether no counter of `counters` is lower than when it was last read.
    fn has_advanced(&self, counters: &Vec<u64>) -> (r: bool)
        requires
            counters@.len() == self.counters@.len(),
        ensures
            r == advanced(self@.counters, counters@),
    {
        let mut i: usize = 0;
        while i < counters.len()
            invariant
                counters@.len() == self.counters@.len(),
                i <= counters@.len(),
                forall|j: int| 0 <= j < i ==> self.counters@[j] <= #[trigger] counters@[j],
            decreases counters@.len() - i,
        {
            if counters[i] < self.counters[i] {
                return false;
            }
            i += 1;
        }
        true
    }

    /// Checks counters that were read against the run.
    fn check(&self, counters: &Vec<u64>) -> (r: Option<RunError>)
        ensures
            r == self@.refusal(counters@),
    {
        if counters.len() != self.counters.len() {
            Some(RunError::WrongThreadCount)
        } else if !self.has_advanced(counters) {
            Some(RunError::CounterWentBack)
        } else {
            None
        }
    }

    /// By how much each counter of `after` is ahead of the one of `before` in
    /// its place.
    pub open spec fn advances(before: Seq<u64>, after: Seq<u64>) -> Seq<u64> {
        Seq::new(before.len(), |i: int| (after[i] - before[i]) as u64)
    }

    /// By how much each thread's counter, as it was just read, is ahead of
    /// where it stood when the counters were last taken. Turned down like a
    /// sample where the counters cannot be taken; the handle does not change.
    pub fn deltas(&self, counters: &Vec<u64>) -> (r: Result<Vec<u64>, RunError>)
        ensures
            match r {
                Ok(d) => self@.refusal(counters@) is None && d@ == Self::advances(
                    self@.counters,
                    counters@,
                ),
                Err(e) => self@.refusal(counters@) == Some(e),
            },
    {
        match self.check(counters) {
            Some(e) => {
                return Err(e);
            },
            None => {},
        }
        let mut d: Vec<u64> = Vec::new();
        let mut i: usize = 0;
        while i < counters.len()
            invariant
                counters@.len() == self.counters@.len(),
                advanced(self.counters@, counters@),
                i <= counters@.len(),
                d@.len() == i,
                forall|j: int| 0 <= j < i ==> d@[j] == counters@[j] - self.counters@[j],
            decreases counters@.len() - i,
        {
            d.push(counters[i] - self.counters[i]);
            i += 1;
        }
        assert(d@ =~= Self::advances(self@.counters, counters@));
        Ok(d)
    }

    /// Copies the counters that were read into the handle.
    fn take_counters(&mut self, counters: &Vec<u64>)
        requires
            counters@.len() == old(self).counters@.len(),
        ensures
            final(self).counters@ == counters@,
            final(self).state == old(self).state,
            final(self).started_at == old(self).started_at,
            final(self).duration_nanos == old(self).duration_nanos,
            final(self).progress_nanos == old(self).progress_nanos,
            final(self).counted == old(self).counted,
            final(self).sampled_at == old(self).sampled_at,
            final(self).samples == old(self).samples,
            final(self).total == old(self).total,
    {
        let mut i: usize = 0;
        while i < counters.len()
            invariant
                counters@.len() == self.counters@.len(),
                i <= counters@.len(),
                forall|j: int| 0 <= j < i ==> self.counters@[j] == counters@[j],
                self.state == old(self).state,
                self.started_at == old(self).started_at,
                self.duration_nanos == old(self).duration_nanos,
                self.progress_nanos == old(self).progress_nanos,
                self.counted == old(self).counted,
                self.sampled_at == old(self).sampled_at,
                self.samples == old(self).samples,
                self.total == old(self).total,
            decreases counters@.len() - i,
        {
            self.counters.set(i, counters[i]);
            i += 1;
        }
        assert(self.counters@ =~= counters@);
    }

    /// Takes a sample at the time `now` from the counters as they were just
    /// read, one per thread. The sample holds the operations counted since
    /// the last sample and the time since then, and joins the time series.
    ///
    /// Turned down, in this order: with `NotActive` unless the run is running
    /// or stopping; with `WrongThreadCount` or `CounterWentBack`
    /// where the counters cannot be taken; with `NoTimePassed` where `now` is
    /// not later than the last sample.
    pub fn sample(&mut self, now: u64, counters: &Vec<u64>) -> (r: Result<Sample, RunError>)
        requires
            old(self).wf(),
        ensures
            final(self).wf(),
            r == old(self)@.sample_outcome(now, counters@),
            final(self)@ == old(self)@.sampled(now, counters@),
    {
        match self.state {
            RunState::Running | RunState::Stopping => {},
            _ => {
                return Err(RunError::NotActive);
            },
        }
        match self.check(counters) {
            Some(e) => {
                return Err(e);
            },
            None => {},
        }
        let elapsed = self.elapsed(now);
        if elapsed <= self.sampled_at {
            return Err(RunError::NoTimePassed);
        }
        proof {
            lemma_total_monotone(self.counters@, counters@);
        }
        let counted = total_count(counters);
        let s = Sample {
            elapsed_nanos: elapsed,
            operations: counted - self.counted,
            interval_nanos: elapsed - self.sampled_at,
        };
        let ghost before = self.samples@;
        self.take_counters(counters);
        self.counted = counted;
        self.sampled_at = elapsed;
        self.samples.push(s);
        proof {
            lemma_later_sample(before, s);
        }
        Ok(s)
    }

    /// Completes a stopping run at the time `now`, once every worker has
    /// returned, from the counters as they stand then. Takes a last sample
    /// where time has passed since the one before, publishes full progress,
    /// and gives the total: the sum of the final counters.
    ///
    /// Turned down with `NotActive` unless the run is stopping, and with
    /// `WrongThreadCount` or `CounterWentBack` where the counters cannot be
    /// taken.
    pub fn complete(&mut self, now: u64, counters: &Vec<u64>) -> (r: Result<u128, RunError>)
        requires
            old(self).wf(),
        ensures
            final(self).wf(),
            r == old(self)@.completion_outcome(counters@),
            final(self)@ == old(self)@.completed(now, counters@),
    {
        match self.state {
            RunState::Stopping => {},
            _ => {
                return Err(RunError::NotActive);
            },
        }
        match self.check(counters) {
            Some(e) => {
                return Err(e);
            },
            None => {},
        }
        let elapsed = self.elapsed(now);
        if elapsed > self.sampled_at {
            match self.sample(now, counters) {
                Ok(_) => {},
                Err(_) => {},
            }
        } else {
            let counted = total_count(counters);
            self.take_counters(counters);
            self.counted = counted;
        }
        self.state = RunState::Completed;
        self.progress_nanos = self.duration_nanos;
        self.total = Some(self.counted);
        Ok(self.counted)
    }

    /// Hands the total of a completed run to whoever shows it and frees the
    /// slot for the next run. Gives `None`, and changes nothing, unless the
    /// run is completed.
    pub fn publish(&mut self) -> (total: Option<u128>)
        requires
            old(self).wf(),
        ensures
            final(self).wf(),
            total == if old(self)@.state == RunState::Completed {
                old(self)@.total
            } else {
                None
            },
            final(self)@ == old(self)@.published(),
    {
        match self.state {
            RunState::Completed => {
                self.state = RunState::Idle;
                self.total
            },
            _ => None,
        }
    }
}

impl RunView {
    /// Whatever is asked of a valid run, it stays valid.
    pub proof fn lemma_stays_valid(self, now: u64, counters: Seq<u64>)
        requires
            self.valid(),
        ensures
            self.stopped().valid(),
            self.polled(now).valid(),
            self.sampled(now, counters).valid(),
            self.completed(now, counters).valid(),
            self.published().valid(),
    {
        if self.sample_outcome(now, counters) is Ok || (self.completion_outcome(counters) is Ok
            && self.elapsed(now) > self.sampled_at()) {
            lemma_later_sample(self.samples, self.next_sample(now, counters));
        }
    }

    /// The total of a run is the sum of the counters as they stood when the
    /// last worker had returned, and the run keeps those counters.
    pub proof fn lemma_total_is_sum(self, now: u64, counters: Seq<u64>)
        requires
            self.valid(),
            self.completion_outcome(counters) is Ok,
        ensures
            self.completion_outcome(counters) == Ok::<u128, RunError>(total_of(counters) as u128),
            self.completed(now, counters).counters == counters,
            self.completed(now, counters).total == Some(total_of(counters) as u128),
            counters.len() <= usize::MAX ==> total_of(counters) as u128 == total_of(counters),
            self.completed(now, counters).state == RunState::Completed,
    {
        if counters.len() <= usize::MAX {
            lemma_total_fits(counters);
        }
    }

    /// Within one run, published progress never goes back, whatever is asked
    /// of the run, and a completed run shows exactly full progress.
    pub proof fn lemma_progress(self, now: u64, counters: Seq<u64>)
        requires
            self.valid(),
        ensures
            self.stopped().progress_nanos >= self.progress_nanos,
            self.polled(now).progress_nanos >= self.progress_nanos,
            self.sampled(now, counters).progress_nanos >= self.progress_nanos,
            self.completed(now, counters).progress_nanos >= self.progress_nanos,
            self.published().progress_nanos >= self.progress_nanos,
            self.polled(now).progress_nanos <= self.duration_nanos,
            self.active() && self.elapsed(now) >= self.duration_nanos ==> self.polled(
                now,
            ).progress_nanos == self.duration_nanos,
            self.completion_outcome(counters) is Ok ==> self.completed(
                now,
                counters,
            ).progress_nanos == self.completed(now, counters).duration_nanos,
    {
    }

    /// A running run is told to stop by the first poll at or after its
    /// duration, and by none before. Where a poll at `earlier` left the run
    /// running and the next comes no more than `interval` later, that next
    /// poll finds less than the duration and the interval elapsed: the
    /// deadline is enforced no later than one polling interval past it.
    pub proof fn lemma_deadline(self, earlier: u64, later: u64, interval: u64)
        requires
            self.valid(),
            self.state == RunState::Running,
            earlier <= later,
            later - earlier <= interval,
        ensures
            self.polled(earlier).state == RunState::Stopping <==> self.elapsed(earlier)
                >= self.duration_nanos,
            self.polled(earlier).state == RunState::Running ==> self.polled(earlier).elapsed(
                later,
            ) < self.duration_nanos + interval,
            self.polled(earlier).state == RunState::Running && self.elapsed(later)
                >= self.duration_nanos ==> self.polled(earlier).polled(later).state
                == RunState::Stopping,
    {
    }

    /// A run that was told to stop less than its duration and an interval
    /// after it began, and whose workers have all returned no more than
    /// `join` later, completes less than the sum of the three after it began.
    pub proof fn lemma_completion_latency(
        self,
        stopped: u64,
        completed: u64,
        interval: u64,
        join: u64,
    )
        requires
            stopped <= completed,
            completed - stopped <= join,
            self.elapsed(stopped) < self.duration_nanos + interval,
        ensures
            self.elapsed(completed) < self.duration_nanos + interval + join,
    {
    }
}

} // verus!
