//! The sampling run: fetch until the wanted number of samples has arrived.
//!
//! A [`Sampler`] holds the number of samples wanted and the number received
//! so far. Its caller fetches while [`Sampler::next_step`] says so and reports
//! how each fetch ended. A failed fetch is not counted and not given up: the
//! run goes on until the wanted number of samples has arrived, so a run
//! against a source that always fails never finishes. The samples themselves
//! stay with the caller, who sums them and divides the sum by
//! [`Sampler::target`]; when the run is finished that is the number of samples
//! in the sum.

use vstd::prelude::*;

verus! {

/// Seconds to wait after every fetch, whether it succeeded or not.
pub const DELAY_SECONDS: u64 = 1;

/// Where the price is fetched from.
pub const ENDPOINT: &'static str = "https://api.coinbase.com/v2/prices/spot?currency=USD";

/// What is shown before each received price.
pub const RECEIVED_PREFIX: &'static str = "Received amount: ";

/// The line that reports one received price, given the price as text.
pub open spec fn received_text(amount: Seq<char>) -> Seq<char> {
    RECEIVED_PREFIX@ + amount
}

/// The line shown for one received price: the fixed words, then `amount`
/// as it stands.
pub fn received_line(amount: &str) -> (line: String)
    ensures
        line@ == received_text(amount@),
{
    let mut line = RECEIVED_PREFIX.to_owned();
    line.append(amount);
    line
}

/// How one fetch ended.
#[derive(Clone, Copy, Debug, PartialEq, Eq, Structural)]
pub enum FetchOutcome {
    /// A response arrived and held a price.
    Received,
    /// No response, or one that held no price.
    Failed,
}

/// What the caller of a [`Sampler`] does next.
#[derive(Clone, Copy, Debug, PartialEq, Eq, Structural)]
pub enum SamplerStep {
    /// Fetch once more, report the outcome, wait.
    Fetch,
    /// All samples are in: compute and store the mean.
    Finish,
}

/// The run as two numbers.
pub struct SamplerView {
    /// Samples wanted.
    pub target: nat,
    /// Samples received so far.
    pub received: nat,
}

impl SamplerView {
    /// The run before its first fetch.
    pub open spec fn fresh(target: nat) -> SamplerView {
        SamplerView { target, received: 0 }
    }

    /// No more samples are received than wanted.
    pub open spec fn wf(self) -> bool {
        self.received <= self.target
    }

    /// All samples wanted have arrived.
    pub open spec fn complete(self) -> bool {
        self.received >= self.target
    }

    /// What the caller does next.
    pub open spec fn next_step(self) -> SamplerStep {
        if self.complete() {
            SamplerStep::Finish
        } else {
            SamplerStep::Fetch
        }
    }

    /// The run after one more outcome. Only a sample received while the run
    /// is incomplete counts.
    pub open spec fn record(self, outcome: FetchOutcome) -> SamplerView {
        if outcome == FetchOutcome::Received && !self.complete() {
            SamplerView { target: self.target, received: self.received + 1 }
        } else {
            self
        }
    }

    /// The run after a series of outcomes, the first reported first.
    pub open spec fn run(self, outcomes: Seq<FetchOutcome>) -> SamplerView
        decreases outcomes.len(),
    {
        if outcomes.len() == 0 {
            self
        } else {
            self.run(outcomes.drop_last()).record(outcomes.last())
        }
    }
}

/// How many of `outcomes` are [`FetchOutcome::Received`].
pub open spec fn successes(outcomes: Seq<FetchOutcome>) -> nat
    decreases outcomes.len(),
{
    if outcomes.len() == 0 {
        0
    } else {
        successes(outcomes.drop_last()) + if outcomes.last() == FetchOutcome::Received {
            1nat
        } else {
            0nat
        }
    }
}

/// Counts the samples of one run against the number wanted.
#[derive(Debug)]
pub struct Sampler {
    target: u64,
    received: u64,
}

impl View for Sampler {
    type V = SamplerView;

    closed spec fn view(&self) -> SamplerView {
        SamplerView { target: self.target as nat, received: self.received as nat }
    }
}

impl Sampler {
    #[verifier::type_invariant]
    spec fn bounded(self) -> bool {
        self.received <= self.target
    }

    /// A run that wants `target` samples and has none yet.
    pub fn new(target: u64) -> (sampler: Sampler)
        ensures
            sampler@ == SamplerView::fresh(target as nat),
    {
        Sampler { target, received: 0 }
    }

    /// The number of samples wanted: the divisor of the mean.
    pub fn target(&self) -> (target: u64)
        ensures
            target == self@.target,
            self@.wf(),
    {
        proof {
            use_type_invariant(self);
        }
        self.target
    }

    /// The number of samples received so far.
    pub fn received(&self) -> (received: u64)
        ensures
            received == self@.received,
            received <= self@.target,
    {
        proof {
            use_type_invariant(self);
        }
        self.received
    }

    /// `Fetch` while samples are missing, `Finish` once all have arrived.
    pub fn next_step(&self) -> (step: SamplerStep)
        ensures
            step == self@.next_step(),
            step == SamplerStep::Finish <==> self@.received == self@.target,
    {
        proof {
            use_type_invariant(self);
        }
        if self.received < self.target {
            SamplerStep::Fetch
        } else {
            SamplerStep::Finish
        }
    }

    /// Takes note of how a fetch ended, and says what to do next. A received
    /// sample is counted; a failure changes nothing, nor does an outcome
    /// reported to a run that is already complete.
    pub fn record(&mut self, outcome: FetchOutcome) -> (step: SamplerStep)
        ensures
            final(self)@ == old(self)@.record(outcome),
            final(self)@.wf(),
            step == final(self)@.next_step(),
    {
        proof {
            use_type_invariant(&*self);
        }
        match outcome {
            FetchOutcome::Received => {
                if self.received < self.target {
                    self.received = self.received + 1;
                }
            },
            FetchOutcome::Failed => {},
        }
        if self.received < self.target {
            SamplerStep::Fetch
        } else {
            SamplerStep::Finish
        }
    }
}

/// The smaller of two numbers.
pub open spec fn at_most(a: nat, b: nat) -> nat {
    if a <= b {
        a
    } else {
        b
    }
}

/// Every outcome of the series is the given one.
pub open spec fn all_are(outcomes: Seq<FetchOutcome>, outcome: FetchOutcome) -> bool {
    forall|i: int| 0 <= i < outcomes.len() ==> #[trigger] outcomes[i] == outcome
}

/// A run counts the samples it receives, up to the number wanted, and never
/// changes that number: after any series of outcomes the count is the
/// earlier count plus the successes of the series, capped at the target.
/// So the run is complete exactly when the successes have made up what was
/// missing.
pub proof fn lemma_run_counts_successes(start: SamplerView, outcomes: Seq<FetchOutcome>)
    requires
        start.wf(),
    ensures
        start.run(outcomes).wf(),
        start.run(outcomes).target == start.target,
        start.run(outcomes).received == at_most(
            start.target,
            start.received + successes(outcomes),
        ),
        start.run(outcomes).complete() <==> start.received + successes(outcomes)
            >= start.target,
    decreases outcomes.len(),
{
    if outcomes.len() > 0 {
        lemma_run_counts_successes(start, outcomes.drop_last());
    }
}

/// Failures are not counted: a series of failed fetches leaves the run as
/// it was, so an incomplete run stays incomplete however long the series.
pub proof fn lemma_failures_change_nothing(start: SamplerView, outcomes: Seq<FetchOutcome>)
    requires
        all_are(outcomes, FetchOutcome::Failed),
    ensures
        start.run(outcomes) == start,
    decreases outcomes.len(),
{
    if outcomes.len() > 0 {
        let earlier = outcomes.drop_last();
        assert forall|i: int| 0 <= i < earlier.len() implies #[trigger] earlier[i]
            == FetchOutcome::Failed by {
            assert(earlier[i] == outcomes[i]);
        }
        lemma_failures_change_nothing(start, earlier);
        assert(outcomes.last() == outcomes[outcomes.len() - 1]);
    }
}

/// When every fetch succeeds, a fresh run is complete after exactly as many
/// fetches as samples are wanted, and holds that many samples then: the sum
/// of the samples is divided by their number.
pub proof fn lemma_unfailing_run_takes_target_fetches(target: nat, outcomes: Seq<FetchOutcome>)
    requires
        all_are(outcomes, FetchOutcome::Received),
    ensures
        SamplerView::fresh(target).run(outcomes).complete() <==> outcomes.len() >= target,
        SamplerView::fresh(target).run(outcomes).received == at_most(target, outcomes.len()),
{
    lemma_successes_of_unfailing(outcomes);
    lemma_run_counts_successes(SamplerView::fresh(target), outcomes);
}

/// In a series without failures every outcome is a success.
proof fn lemma_successes_of_unfailing(outcomes: Seq<FetchOutcome>)
    requires
        all_are(outcomes, FetchOutcome::Received),
    ensures
        successes(outcomes) == outcomes.len(),
    decreases outcomes.len(),
{
    if outcomes.len() > 0 {
        let earlier = outcomes.drop_last();
        assert forall|i: int| 0 <= i < earlier.len() implies #[trigger] earlier[i]
            == FetchOutcome::Received by {
            assert(earlier[i] == outcomes[i]);
        }
        lemma_successes_of_unfailing(earlier);
        assert(outcomes.last() == outcomes[outcomes.len() - 1]);
    }
}

} // verus!
