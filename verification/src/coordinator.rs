//! The coordinator's half of the search: it validates the configuration,
//! owns the speed tracker, the running totals, the stopping condition and
//! the result list, and decides what each drained message calls for. The
//! surrounding program spawns the threads, drains the channel, prints the
//! reports and persists the keys the decisions hand it.

use vstd::prelude::*;
use crate::keys::Candidate;
use crate::predicate::{MatchPredicate, PredicateConfig};
use crate::speed::{
    cutoff_of, drop_stale, lemma_drop_stale_times, lemma_drop_stale_total, span_of, total_count,
    SpeedTracker,
};
use crate::worker::{Message, SearchWorker};

verus! {

/// The trailing window of the throughput estimate, in milliseconds.
pub const WINDOW_MS: u64 = 5000;

/// A progress report is due once more than this has passed since the last
/// one, in milliseconds.
pub const REPORT_EVERY_MS: u64 = 1000;

/// The immutable snapshot a run is configured with.
pub struct RunConfig {
    pub predicate: PredicateConfig,
    /// How many found keys end the run; at least one.
    pub match_limit: usize,
    /// How many workers search in parallel; at least one.
    pub worker_count: usize,
    /// One requested core per worker, when pinning is wanted.
    pub affinity: Option<Vec<usize>>,
}

impl RunConfig {
    pub open spec fn valid(&self) -> bool {
        &&& self.match_limit >= 1
        &&& self.worker_count >= 1
        &&& (self.affinity matches Some(cores) ==> cores@.len() == self.worker_count)
        &&& self.predicate.valid()
    }
}

/// Why a configuration was rejected before any worker started.
pub enum ConfigError {
    /// The pattern did not compile; carries the engine's message.
    InvalidPattern(String),
    MatchLimitZero,
    WorkerCountZero,
    /// The affinity hints do not cover the workers one to one.
    AffinityMismatch,
}

/// How the result list advances on one message: a found key is appended
/// until the limit is reached, and never past it.
pub open spec fn found_after(found: Seq<Candidate>, limit: int, msg: Message) -> Seq<Candidate> {
    match msg {
        Message::Found(c) => if found.len() < limit {
            found.push(c)
        } else {
            found
        },
        Message::IterationBatch(_) => found,
    }
}

/// Once the match limit is reached, the stop is final: no later message
/// changes the result list, so a run returns at most `match_limit` keys and
/// never a key beyond the limit.
pub proof fn lemma_stop_is_final(found: Seq<Candidate>, limit: int, msg: Message)
    requires
        found.len() >= limit,
    ensures
        found_after(found, limit, msg) == found,
{
}

/// A compiled rule accepts exactly what its configuration describes.
pub proof fn lemma_implements_accepts(p: MatchPredicate, c: PredicateConfig)
    requires
        p.implements(c),
    ensures
        forall|a: Seq<char>| p.accepts(a) == c.accepts(a),
{
}

/// A worker ready to start: counter at zero, rule equivalent to the
/// configured predicate.
pub open spec fn worker_ready(w: SearchWorker, c: PredicateConfig) -> bool {
    &&& w.wf()
    &&& w.counter() == 0
    &&& (forall|a: Seq<char>| w.rule().accepts(a) == c.accepts(a))
}

/// What the caller must do after handing one drained message to the
/// coordinator.
pub enum StepEffect {
    /// Nothing beyond the bookkeeping.
    Ignored,
    /// Print a progress report: total iterations so far and the windowed
    /// totals behind the smoothed rate.
    Report { total: u64, window_total: u64, window_span_ms: u64 },
    /// The key at `index` of the result list is new: hand it to the key
    /// sink.
    Persist { index: usize },
}

/// The single-threaded consumer of the workers' messages.
pub struct Coordinator {
    predicate: MatchPredicate,
    tracker: SpeedTracker,
    total_iterations: u64,
    found: Vec<Candidate>,
    match_limit: usize,
    last_report_ms: u64,
    last_time_ms: u64,
}

impl Coordinator {
    /// The rule this run searches for.
    pub closed spec fn rule(&self) -> MatchPredicate {
        self.predicate
    }

    /// Iterations reported by all workers so far.
    pub closed spec fn total(&self) -> u64 {
        self.total_iterations
    }

    /// The keys found so far, in arrival order.
    pub closed spec fn found_keys(&self) -> Seq<Candidate> {
        self.found@
    }

    /// The configured match limit.
    pub closed spec fn limit(&self) -> usize {
        self.match_limit
    }

    /// The samples currently in the speed tracker's window.
    pub closed spec fn samples(&self) -> Seq<(u64, u64)> {
        self.tracker.samples()
    }

    /// When the last progress report went out.
    pub closed spec fn last_report(&self) -> u64 {
        self.last_report_ms
    }

    /// The latest timestamp the coordinator has seen.
    pub closed spec fn last_time(&self) -> u64 {
        self.last_time_ms
    }

    pub closed spec fn wf(&self) -> bool {
        &&& self.predicate.wf()
        &&& self.tracker.wf()
        &&& self.tracker.window() == WINDOW_MS
        &&& self.match_limit >= 1
        &&& self.found@.len() <= self.match_limit
        &&& total_count(self.tracker.samples()) <= self.total_iterations
        &&& self.last_report_ms <= self.last_time_ms
        &&& (forall|i: int|
            0 <= i < self.tracker.samples().len() ==> self.tracker.samples()[i].0
                <= self.last_time_ms)
        &&& (forall|i: int|
            0 <= i < self.found@.len() ==> (#[trigger] self.found@[i]).wf()
                && self.predicate.accepts(self.found@[i].address@))
    }

    /// Validates the whole configuration before any worker exists, compiles
    /// the predicate once, and hands back the coordinator together with one
    /// ready worker per configured thread, each holding its own clone of
    /// the rule. Fails exactly on an invalid configuration.
    pub fn new(config: RunConfig, start_ms: u64) -> (r: Result<
        (Coordinator, Vec<SearchWorker>),
        ConfigError,
    >)
        ensures
            r is Ok <==> config.valid(),
            config.match_limit == 0 ==> (r matches Err(e) && e is MatchLimitZero),
            config.match_limit >= 1 && config.worker_count == 0 ==> (r matches Err(e)
                && e is WorkerCountZero),
            config.match_limit >= 1 && config.worker_count >= 1 && (config.affinity matches Some(
                cores,
            ) && cores@.len() != config.worker_count) ==> (r matches Err(e)
                && e is AffinityMismatch),
            config.match_limit >= 1 && config.worker_count >= 1 && (config.affinity matches Some(
                cores,
            ) ==> cores@.len() == config.worker_count) && !config.predicate.valid() ==> (r
                matches Err(e) && e is InvalidPattern),
            r matches Ok(pair) ==> {
                &&& pair.0.wf()
                &&& pair.0.rule().implements(config.predicate)
                &&& pair.0.found_keys().len() == 0
                &&& pair.0.total() == 0
                &&& pair.0.samples().len() == 0
                &&& pair.0.limit() == config.match_limit
                &&& pair.0.last_report() == start_ms
                &&& pair.0.last_time() == start_ms
                &&& pair.1@.len() == config.worker_count
                &&& (forall|i: int|
                    0 <= i < pair.1@.len() ==> #[trigger] worker_ready(
                        pair.1@[i],
                        config.predicate,
                    ))
            },
    {
        if config.match_limit == 0 {
            return Err(ConfigError::MatchLimitZero);
        }
        if config.worker_count == 0 {
            return Err(ConfigError::WorkerCountZero);
        }
        match &config.affinity {
            Some(cores) => {
                if cores.len() != config.worker_count {
                    return Err(ConfigError::AffinityMismatch);
                }
            },
            None => {},
        }
        let worker_count = config.worker_count;
        let match_limit = config.match_limit;
        let predicate = match MatchPredicate::build(config.predicate) {
            Ok(p) => p,
            Err(e) => {
                return Err(ConfigError::InvalidPattern(e));
            },
        };
        proof {
            lemma_implements_accepts(predicate, config.predicate);
        }
        let mut workers: Vec<SearchWorker> = Vec::new();
        let mut i: usize = 0;
        while i < worker_count
            invariant
                predicate.wf(),
                predicate.implements(config.predicate),
                i == workers@.len(),
                i <= worker_count,
                forall|k: int|
                    0 <= k < workers@.len() ==> #[trigger] worker_ready(
                        workers@[k],
                        config.predicate,
                    ),
            decreases worker_count - i,
        {
            let clone_for_worker = predicate.duplicate();
            let w = SearchWorker::new(clone_for_worker);
            proof {
                lemma_implements_accepts(predicate, config.predicate);
                assert(worker_ready(w, config.predicate));
            }
            workers.push(w);
            i = i + 1;
        }
        let coordinator = Coordinator {
            predicate,
            tracker: SpeedTracker::new(WINDOW_MS),
            total_iterations: 0,
            found: Vec::new(),
            match_limit,
            last_report_ms: start_ms,
            last_time_ms: start_ms,
        };
        Ok((coordinator, workers))
    }

    /// Digests one drained message at time `now_ms`: a batch feeds the
    /// totals and the speed tracker and may make a progress report due; a
    /// found key is appended and handed out for persistence until the limit
    /// is reached, and discarded past it.
    pub fn on_message(&mut self, msg: Message, now_ms: u64) -> (eff: StepEffect)
        requires
            old(self).wf(),
            now_ms >= old(self).last_time(),
            msg.from_worker(old(self).rule()),
            old(self).total() + msg.batch_count() <= u64::MAX,
        ensures
            final(self).wf(),
            final(self).rule() == old(self).rule(),
            final(self).limit() == old(self).limit(),
            final(self).found_keys() == found_after(
                old(self).found_keys(),
                old(self).limit() as int,
                msg,
            ),
            final(self).total() == old(self).total() + msg.batch_count(),
            final(self).last_time() == now_ms,
            msg matches Message::IterationBatch(n) ==> final(self).samples() == drop_stale(
                old(self).samples().push((now_ms, n)),
                cutoff_of(now_ms, WINDOW_MS),
            ),
            msg is Found ==> final(self).samples() == old(self).samples(),
            final(self).last_report() == if report_due(*old(self), msg, now_ms) {
                now_ms
            } else {
                old(self).last_report()
            },
            report_due(*old(self), msg, now_ms) ==> (eff matches StepEffect::Report {
                total,
                window_total,
                window_span_ms,
            } && total == final(self).total() && window_total == total_count(final(self).samples())
                && window_span_ms == span_of(final(self).samples())),
            persist_due(*old(self), msg) ==> eff == (StepEffect::Persist {
                index: old(self).found_keys().len() as usize,
            }),
            !report_due(*old(self), msg, now_ms) && !persist_due(*old(self), msg)
                ==> eff is Ignored,
    {
        match msg {
            Message::IterationBatch(n) => {
                self.total_iterations = self.total_iterations + n;
                proof {
                    lemma_drop_stale_total(
                        old(self).samples().push((now_ms, n)),
                        cutoff_of(now_ms, WINDOW_MS),
                    );
                    assert(old(self).samples().push((now_ms, n)).drop_last() =~= old(
                        self,
                    ).samples());
                    lemma_drop_stale_times(
                        old(self).samples().push((now_ms, n)),
                        cutoff_of(now_ms, WINDOW_MS),
                        now_ms,
                    );
                }
                self.tracker.add_iterations(now_ms, n);
                self.last_time_ms = now_ms;
                if now_ms - self.last_report_ms > REPORT_EVERY_MS {
                    self.last_report_ms = now_ms;
                    let totals = self.tracker.calculate_speed();
                    StepEffect::Report {
                        total: self.total_iterations,
                        window_total: totals.0,
                        window_span_ms: totals.1,
                    }
                } else {
                    StepEffect::Ignored
                }
            },
            Message::Found(candidate) => {
                self.last_time_ms = now_ms;
                if self.found.len() < self.match_limit {
                    let index = self.found.len();
                    self.found.push(candidate);
                    StepEffect::Persist { index }
                } else {
                    StepEffect::Ignored
                }
            },
        }
    }

    /// Whether the run has observed its match limit and must stop draining.
    pub fn finished(&self) -> (r: bool)
        ensures
            r == (self.found_keys().len() >= self.limit()),
    {
        self.found.len() >= self.match_limit
    }

    /// Iterations reported by all workers so far.
    pub fn iterations(&self) -> (r: u64)
        ensures
            r == self.total(),
    {
        self.total_iterations
    }

    /// How many keys the run has kept so far.
    pub fn found_count(&self) -> (r: usize)
        ensures
            r == self.found_keys().len(),
    {
        self.found.len()
    }

    /// The key at `index` of the result list, for the key sink.
    pub fn found_key(&self, index: usize) -> (r: &Candidate)
        requires
            index < self.found_keys().len(),
        ensures
            *r == self.found_keys()[index as int],
    {
        &self.found[index]
    }

    /// The outcome of a completed run: the found keys, in arrival order.
    pub fn into_found(self) -> (r: Vec<Candidate>)
        ensures
            r@ == self.found_keys(),
    {
        self.found
    }
}

/// A progress report is due when a batch arrives more than the cadence
/// after the last report.
pub open spec fn report_due(c: Coordinator, msg: Message, now_ms: u64) -> bool {
    msg is IterationBatch && now_ms - c.last_report() > REPORT_EVERY_MS
}

/// A found key is kept (and must be persisted) while the limit is not yet
/// reached.
pub open spec fn persist_due(c: Coordinator, msg: Message) -> bool {
    msg is Found && c.found_keys().len() < c.limit()
}

} // verus!
