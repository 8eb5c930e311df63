//! One worker's generate-and-test loop body, as a state machine that the
//! search thread drives: the step decides, the thread performs the sends.

use vstd::prelude::*;
use crate::keys::Candidate;
use crate::predicate::MatchPredicate;

verus! {

/// How many iterations a worker folds into one `IterationBatch` report.
pub const ITERATION_BATCH: u64 = 1000;

/// What a worker pushes onto the reporting channel.
pub enum Message {
    IterationBatch(u64),
    Found(Candidate),
}

impl Message {
    /// The iterations this message accounts for.
    pub open spec fn batch_count(&self) -> int {
        match *self {
            Message::IterationBatch(n) => n as int,
            Message::Found(_) => 0,
        }
    }

    /// A message as a worker produces it: any batch is a full one, and any
    /// found key is well-formed and accepted by the given rule.
    pub open spec fn from_worker(&self, rule: MatchPredicate) -> bool {
        match *self {
            Message::IterationBatch(n) => n == ITERATION_BATCH,
            Message::Found(c) => c.wf() && rule.accepts(c.address@),
        }
    }
}

/// One worker's search state: its own clone of the immutable predicate and
/// the iteration counter local to its loop.
pub struct SearchWorker {
    predicate: MatchPredicate,
    local_count: u64,
}

/// How one iteration advances the counter and what it may emit: the counter
/// wraps exactly at a full batch, a batch report comes first, a found key
/// last, and everything emitted is sound for the worker's rule.
pub open spec fn step_post(prev: SearchWorker, cur: SearchWorker, msgs: Seq<Message>) -> bool {
    &&& cur.rule() == prev.rule()
    &&& (if prev.counter() + 1 == ITERATION_BATCH {
        &&& cur.counter() == 0
        &&& 1 <= msgs.len() <= 2
        &&& msgs[0] == (Message::IterationBatch(ITERATION_BATCH))
        &&& (msgs.len() == 2 ==> msgs[1] is Found)
    } else {
        &&& cur.counter() == prev.counter() + 1
        &&& msgs.len() <= 1
        &&& (msgs.len() == 1 ==> msgs[0] is Found)
    })
    &&& (forall|i: int| 0 <= i < msgs.len() ==> #[trigger] msgs[i].from_worker(prev.rule()))
}

/// One drawn candidate explains the emitted messages: a trailing `Found`
/// appears exactly when the candidate's address is accepted by the rule,
/// and carries that very candidate.
pub open spec fn drawn_explains(c: Candidate, rule: MatchPredicate, msgs: Seq<Message>) -> bool {
    &&& c.wf()
    &&& ((msgs.len() > 0 && msgs.last() is Found) == rule.accepts(c.address@))
    &&& (msgs.len() > 0 && msgs.last() is Found ==> msgs.last() == (Message::Found(c)))
}

impl SearchWorker {
    /// The worker's rule.
    pub closed spec fn rule(&self) -> MatchPredicate {
        self.predicate
    }

    /// Iterations counted since the last batch report.
    pub closed spec fn counter(&self) -> u64 {
        self.local_count
    }

    pub open spec fn wf(&self) -> bool {
        &&& self.rule().wf()
        &&& self.counter() < ITERATION_BATCH
    }

    /// A worker over its own clone of the predicate, counting from zero.
    pub fn new(predicate: MatchPredicate) -> (w: Self)
        requires
            predicate.wf(),
        ensures
            w.wf(),
            w.counter() == 0,
            w.rule() == predicate,
    {
        SearchWorker { predicate, local_count: 0 }
    }

    /// One iteration of the generate-and-test loop: count the iteration,
    /// emit a full batch when the counter wraps, generate one fresh keypair,
    /// test its address, and emit that keypair exactly when its address is
    /// accepted — a match is never suppressed here; only the coordinator
    /// enforces the limit. Only a regex rule can fail, and an engine fault
    /// fails the run instead of silently skewing it.
    pub fn step(&mut self) -> (r: Result<Vec<Message>, String>)
        requires
            old(self).wf(),
        ensures
            final(self).wf(),
            final(self).rule() == old(self).rule(),
            r matches Ok(msgs) ==> step_post(*old(self), *final(self), msgs@),
            !(old(self).rule() is Regex) ==> r is Ok,
            r matches Ok(msgs) ==> exists|c: Candidate|
                #[trigger] drawn_explains(c, old(self).rule(), msgs@),
    {
        let mut msgs: Vec<Message> = Vec::new();
        if self.local_count + 1 == ITERATION_BATCH {
            self.local_count = 0;
            msgs.push(Message::IterationBatch(ITERATION_BATCH));
        } else {
            self.local_count = self.local_count + 1;
        }
        let candidate = Candidate::generate();
        let ghost drawn = candidate;
        match self.predicate.try_matches(candidate.address.as_str()) {
            Ok(true) => {
                msgs.push(Message::Found(candidate));
                proof {
                    assert(drawn_explains(drawn, old(self).rule(), msgs@));
                }
                Ok(msgs)
            },
            Ok(false) => {
                proof {
                    assert(drawn_explains(drawn, old(self).rule(), msgs@));
                }
                Ok(msgs)
            },
            Err(e) => {
                proof {
                    assert(old(self).rule() is Regex);
                }
                Err(e)
            },
        }
    }
}

} // verus!
