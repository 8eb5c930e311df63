use solvanity::coordinator::{ConfigError, Coordinator, RunConfig, StepEffect};
use solvanity::keys::Candidate;
use solvanity::predicate::PredicateConfig;
use solvanity::worker::{Message, SearchWorker, ITERATION_BATCH};

fn prefix_config(word: &str, match_limit: usize, worker_count: usize) -> RunConfig {
    RunConfig {
        predicate: PredicateConfig::Prefix { word: word.to_string(), ignore_case: false },
        match_limit,
        worker_count,
        affinity: None,
    }
}

fn start(config: RunConfig) -> (Coordinator, Vec<SearchWorker>) {
    match Coordinator::new(config, 0) {
        Ok(pair) => pair,
        Err(_) => panic!("configuration unexpectedly rejected"),
    }
}

#[test]
fn zero_match_limit_is_rejected() {
    let r = Coordinator::new(prefix_config("1", 0, 1), 0);
    assert!(matches!(r, Err(ConfigError::MatchLimitZero)));
}

#[test]
fn zero_worker_count_is_rejected() {
    let r = Coordinator::new(prefix_config("1", 1, 0), 0);
    assert!(matches!(r, Err(ConfigError::WorkerCountZero)));
}

#[test]
fn mismatched_affinity_is_rejected() {
    let mut config = prefix_config("1", 1, 2);
    config.affinity = Some(vec![0]);
    let r = Coordinator::new(config, 0);
    assert!(matches!(r, Err(ConfigError::AffinityMismatch)));
}

#[test]
fn invalid_pattern_is_rejected_before_workers_exist() {
    let config = RunConfig {
        predicate: PredicateConfig::Regex { pattern: "(".to_string() },
        match_limit: 1,
        worker_count: 4,
        affinity: None,
    };
    let r = Coordinator::new(config, 0);
    assert!(matches!(r, Err(ConfigError::InvalidPattern(_))));
}

#[test]
fn one_worker_per_configured_thread() {
    let (_, workers) = start(prefix_config("1", 1, 3));
    assert_eq!(workers.len(), 3);
}

#[test]
fn batches_feed_totals_and_reports_follow_the_cadence() {
    let (mut coord, _) = start(prefix_config("zzzz", 1, 1));
    let eff = coord.on_message(Message::IterationBatch(1000), 500);
    assert!(matches!(eff, StepEffect::Ignored));
    assert_eq!(coord.iterations(), 1000);
    let eff = coord.on_message(Message::IterationBatch(1000), 1501);
    match eff {
        StepEffect::Report { total, window_total, window_span_ms } => {
            assert_eq!(total, 2000);
            assert_eq!(window_total, 2000);
            assert_eq!(window_span_ms, 1001);
        },
        _ => panic!("a report was due"),
    }
    assert_eq!(coord.iterations(), 2000);
    // the cadence restarts after a report
    let eff = coord.on_message(Message::IterationBatch(1000), 2000);
    assert!(matches!(eff, StepEffect::Ignored));
}

#[test]
fn stop_is_final_and_excess_matches_are_discarded() {
    // an empty prefix accepts every address
    let (mut coord, _) = start(prefix_config("", 2, 1));
    let eff = coord.on_message(Message::Found(Candidate::generate()), 1);
    assert!(matches!(eff, StepEffect::Persist { index: 0 }));
    assert!(!coord.finished());
    let eff = coord.on_message(Message::Found(Candidate::generate()), 2);
    assert!(matches!(eff, StepEffect::Persist { index: 1 }));
    assert!(coord.finished());
    // a late match already in flight is received and discarded
    let eff = coord.on_message(Message::Found(Candidate::generate()), 3);
    assert!(matches!(eff, StepEffect::Ignored));
    assert!(coord.finished());
    assert_eq!(coord.found_count(), 2);
    let keys = coord.into_found();
    assert_eq!(keys.len(), 2);
}

#[test]
fn worker_emits_one_full_batch_every_thousand_iterations() {
    let (_, mut workers) = start(prefix_config("zzzzzz", 1, 1));
    let mut worker = workers.pop().unwrap();
    let mut batches = 0u64;
    let mut batch_sum = 0u64;
    for _ in 0..ITERATION_BATCH {
        let msgs = match worker.step() {
            Ok(m) => m,
            Err(e) => panic!("engine fault: {}", e),
        };
        for m in msgs {
            if let Message::IterationBatch(n) = m {
                batches += 1;
                batch_sum += n;
            }
        }
    }
    assert_eq!(batches, 1);
    assert_eq!(batch_sum, ITERATION_BATCH);
}

#[test]
fn an_all_accepting_rule_finds_a_key_every_step() {
    // the empty prefix accepts every address, so each step must end in a
    // found key
    let (_, mut workers) = start(prefix_config("", 1, 1));
    let mut worker = workers.pop().unwrap();
    for _ in 0..5 {
        let msgs = match worker.step() {
            Ok(m) => m,
            Err(e) => panic!("engine fault: {}", e),
        };
        assert!(matches!(msgs.last(), Some(Message::Found(_))));
    }
}

#[test]
fn candidates_carry_fresh_addresses() {
    let a = Candidate::generate();
    let b = Candidate::generate();
    assert!(!a.address.is_empty());
    assert!(a.address.len() >= 32 && a.address.len() <= 44);
    assert_ne!(a.address, b.address);
}

#[test]
fn one_worker_one_match_end_to_end() {
    let (mut coord, mut workers) = start(prefix_config("1", 1, 1));
    assert_eq!(workers.len(), 1);
    let mut worker = workers.pop().unwrap();
    let mut now: u64 = 0;
    while !coord.finished() {
        now += 1;
        let msgs = match worker.step() {
            Ok(m) => m,
            Err(e) => panic!("engine fault: {}", e),
        };
        for m in msgs {
            coord.on_message(m, now);
        }
    }
    let keys = coord.into_found();
    assert_eq!(keys.len(), 1);
    assert!(keys[0].address.starts_with("1"));
}
