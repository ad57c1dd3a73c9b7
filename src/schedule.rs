use vstd::prelude::*;
use crate::exchange::TransportError;
use crate::percentile::{percentiles, percentiles_at, sorted_samples, Percentiles};
use crate::stats::{fold_all, lemma_average_between_extremes, Aggregate, Stats, Tally};

verus! {

/// Fewer successful requests than this make the benchmark fail.
pub const MIN_SAMPLES: usize = 3;

/// The result of one request.
#[derive(Debug)]
pub enum Outcome {
    Success(Stats),
    Failure(TransportError),
}

/// The timings of the successful outcomes, in order.
pub open spec fn successes(os: Seq<Outcome>) -> Seq<Stats>
    decreases os.len(),
{
    if os.len() == 0 {
        Seq::empty()
    } else {
        let rest = successes(os.drop_last());
        match os.last() {
            Outcome::Success(s) => rest.push(s),
            Outcome::Failure(_) => rest,
        }
    }
}

/// The number of failed outcomes.
pub open spec fn failures(os: Seq<Outcome>) -> nat
    decreases os.len(),
{
    if os.len() == 0 {
        0
    } else {
        let rest = failures(os.drop_last());
        match os.last() {
            Outcome::Success(_) => rest,
            Outcome::Failure(_) => rest + 1,
        }
    }
}

/// The total times of the records, in order.
pub open spec fn completes(xs: Seq<Stats>) -> Seq<u64> {
    xs.map_values(|s: Stats| s.complete)
}

proof fn lemma_outcome_counts(os: Seq<Outcome>)
    ensures
        successes(os).len() + failures(os) == os.len(),
    decreases os.len(),
{
    if os.len() > 0 {
        lemma_outcome_counts(os.drop_last());
    }
}

/// Waves beyond the first `cycles` are never run: `cycles * concurrency`
/// requests are attempted, the largest multiple of `concurrency` that does
/// not exceed `total`.
pub proof fn lemma_wave_truncation(total: u32, concurrency: u32)
    requires
        0 < concurrency,
    ensures
        (total / concurrency) * concurrency <= total,
        total < (total / concurrency) * concurrency + concurrency,
{
    assert((total / concurrency) * concurrency <= total < (total / concurrency) * concurrency + concurrency)
        by (nonlinear_arith)
        requires
            0 < concurrency,
    ;
}

/// The statistics of a finished benchmark that had enough successful requests.
#[derive(Clone, Copy, Debug)]
pub struct Summary {
    pub min: Stats,
    pub average: Stats,
    pub max: Stats,
    pub success: u64,
    pub failure: u64,
    /// The largest response seen, in bytes.
    pub length: usize,
    pub percentiles: Percentiles,
}

/// What a finished benchmark reports.
#[derive(Clone, Copy, Debug)]
pub enum Report {
    /// Too few requests succeeded for the statistics to mean anything.
    Failed { success: u64, failure: u64 },
    Completed(Summary),
}

/// A benchmark run: `total_requests / concurrency` waves of `concurrency`
/// simultaneous requests each, and what they produced.
pub struct Run {
    pub concurrency: u32,
    pub total_requests: u32,
    pub cycles: u32,
    pub waves_done: u32,
    pub aggregate: Aggregate,
    /// The total time of every successful request, in the order recorded.
    pub samples: Vec<u64>,
    /// Every successful request's timings, in the order recorded.
    pub history: Ghost<Seq<Stats>>,
}

impl Run {
    pub open spec fn wf(&self) -> bool {
        &&& 0 < self.concurrency
        &&& self.cycles == self.total_requests / self.concurrency
        &&& self.waves_done <= self.cycles
        &&& self.aggregate.wf()
        &&& self.aggregate.success + self.aggregate.failure == self.waves_done * self.concurrency
        &&& self.aggregate.success == self.history@.len()
        &&& self.aggregate.tally == fold_all(Tally::spec_empty(), self.history@)
        &&& self.samples@ == completes(self.history@)
    }

    /// A run that has attempted nothing yet.
    pub fn new(concurrency: u32, total_requests: u32) -> (r: Run)
        requires
            0 < concurrency,
        ensures
            r.wf(),
            r.concurrency == concurrency,
            r.total_requests == total_requests,
            r.cycles == total_requests / concurrency,
            r.waves_done == 0,
            r.aggregate == Aggregate::spec_new(),
            r.history@ == Seq::<Stats>::empty(),
    {
        let r = Run {
            concurrency,
            total_requests,
            cycles: total_requests / concurrency,
            waves_done: 0,
            aggregate: Aggregate::new(),
            samples: Vec::new(),
            history: Ghost(Seq::empty()),
        };
        assert(r.samples@ =~= completes(r.history@));
        r
    }

    /// How many requests the run attempts in all.
    pub fn planned_attempts(&self) -> (r: u64)
        requires
            self.wf(),
        ensures
            r == self.cycles * self.concurrency,
            r <= self.total_requests,
    {
        proof {
            lemma_wave_truncation(self.total_requests, self.concurrency);
        }
        self.cycles as u64 * self.concurrency as u64
    }

    /// The size of the next wave to launch, or `None` once every wave has run.
    /// Failures never stop the run early.
    pub fn next_wave(&self) -> (r: Option<u32>)
        ensures
            r == (if self.waves_done < self.cycles { Some(self.concurrency) } else { None::<u32> }),
    {
        if self.waves_done < self.cycles {
            Some(self.concurrency)
        } else {
            None
        }
    }

    /// Records every outcome of one wave, successes and failures alike.
    pub fn record_wave(&mut self, outcomes: &Vec<Outcome>)
        requires
            old(self).wf(),
            old(self).waves_done < old(self).cycles,
            outcomes@.len() == old(self).concurrency,
        ensures
            final(self).wf(),
            final(self).concurrency == old(self).concurrency,
            final(self).total_requests == old(self).total_requests,
            final(self).cycles == old(self).cycles,
            final(self).waves_done == old(self).waves_done + 1,
            final(self).history@ == old(self).history@ + successes(outcomes@),
            final(self).samples@ == old(self).samples@ + completes(successes(outcomes@)),
            final(self).aggregate.success == old(self).aggregate.success + successes(outcomes@).len(),
            final(self).aggregate.failure == old(self).aggregate.failure + failures(outcomes@),
    {
        proof {
            assert((self.waves_done + 1) * self.concurrency <= self.cycles * self.concurrency)
                by (nonlinear_arith)
                requires
                    self.waves_done + 1 <= self.cycles,
            ;
            lemma_wave_truncation(self.total_requests, self.concurrency);
        }
        let ghost start = *self;
        let mut i: usize = 0;
        while i < outcomes.len()
            invariant
                0 <= i <= outcomes@.len(),
                outcomes@.len() == start.concurrency,
                start.wf(),
                start.waves_done < start.cycles,
                (start.waves_done + 1) * start.concurrency <= u32::MAX,
                self.concurrency == start.concurrency,
                self.total_requests == start.total_requests,
                self.cycles == start.cycles,
                self.waves_done == start.waves_done,
                self.aggregate.wf(),
                self.aggregate.success + self.aggregate.failure == start.waves_done * start.concurrency + i,
                self.history@ == start.history@ + successes(outcomes@.subrange(0, i as int)),
                self.aggregate.success == self.history@.len(),
                self.aggregate.failure == start.aggregate.failure + failures(outcomes@.subrange(0, i as int)),
                self.aggregate.tally == fold_all(Tally::spec_empty(), self.history@),
                self.samples@ == completes(self.history@),
            decreases outcomes@.len() - i,
        {
            let ghost before = outcomes@.subrange(0, i as int);
            let ghost after = outcomes@.subrange(0, i as int + 1);
            assert(after.drop_last() =~= before);
            assert(after.last() == outcomes@[i as int]);
            proof {
                assert(start.waves_done * start.concurrency + i < (start.waves_done + 1) * start.concurrency)
                    by (nonlinear_arith)
                    requires
                        i < start.concurrency,
                ;
            }
            match &outcomes[i] {
                Outcome::Success(s) => {
                    let ghost h = self.history@;
                    self.aggregate.fold(s);
                    self.samples.push(s.complete);
                    self.history = Ghost(self.history@.push(*s));
                    assert(self.history@.drop_last() =~= h);
                    assert((start.history@ + successes(before)).push(*s) =~= start.history@ + successes(after));
                    assert(self.samples@ =~= completes(self.history@));
                },
                Outcome::Failure(_) => {
                    self.aggregate.record_failure();
                },
            }
            i = i + 1;
        }
        assert(outcomes@.subrange(0, outcomes@.len() as int) =~= outcomes@);
        assert(start.waves_done * start.concurrency + start.concurrency == (start.waves_done + 1)
            * start.concurrency) by (nonlinear_arith);
        self.waves_done = self.waves_done + 1;
        assert(self.samples@ =~= old(self).samples@ + completes(successes(outcomes@)));
    }

    /// The report of a run whose waves have all been recorded: a failure
    /// when fewer than `MIN_SAMPLES` requests succeeded, otherwise the
    /// minima, averages over the configured request count, maxima and
    /// percentiles of the total times.
    pub fn finish(&self) -> (r: Report)
        requires
            self.wf(),
            self.waves_done == self.cycles,
        ensures
            self.aggregate.success + self.aggregate.failure == self.cycles * self.concurrency,
            self.aggregate.success < MIN_SAMPLES <==> r is Failed,
            r matches Report::Failed { success, failure } ==> success == self.aggregate.success
                && failure == self.aggregate.failure,
            r matches Report::Completed(s) ==> {
                &&& s.min == self.aggregate.tally.min
                &&& s.max == self.aggregate.tally.max
                &&& s.average == self.aggregate.tally.averaged(self.total_requests as int)
                &&& s.length == self.aggregate.tally.max.length
                &&& s.success == self.aggregate.success
                &&& s.failure == self.aggregate.failure
                &&& s.percentiles == percentiles_at(sorted_samples(self.samples@))
                &&& s.success == self.total_requests ==> {
                    &&& s.min.connect <= s.average.connect <= s.max.connect
                    &&& s.min.handshake <= s.average.handshake <= s.max.handshake
                    &&& s.min.waiting <= s.average.waiting <= s.max.waiting
                    &&& s.min.writing <= s.average.writing <= s.max.writing
                    &&& s.min.complete <= s.average.complete <= s.max.complete
                    &&& s.min.read <= s.average.read <= s.max.read
                }
            },
    {
        let a = self.aggregate;
        if self.samples.len() < MIN_SAMPLES {
            return Report::Failed { success: a.success, failure: a.failure };
        }
        proof {
            lemma_wave_truncation(self.total_requests, self.concurrency);
            if a.success == self.total_requests {
                lemma_average_between_extremes(a, self.total_requests as int);
            }
        }
        let average = a.average(self.total_requests as u64);
        Report::Completed(
            Summary {
                min: a.tally.min,
                average,
                max: a.tally.max,
                success: a.success,
                failure: a.failure,
                length: a.tally.max.length,
                percentiles: percentiles(self.samples.as_slice()),
            },
        )
    }
}

} // verus!
