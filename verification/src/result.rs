//! The result of a run.

use vstd::prelude::*;
use crate::counters::TopicCounters;
use crate::tally::Tally;

verus! {

/// What a list of counters holds, in order.
pub open spec fn tallies(counters: Seq<TopicCounters>) -> Seq<Tally> {
    counters.map_values(|one: TopicCounters| one@)
}

/// Every one of the counters is well formed.
pub open spec fn all_wf(counters: Seq<TopicCounters>) -> bool {
    forall|i: int| 0 <= i < counters.len() ==> (#[trigger] counters[i]).wf()
}

/// The counters of every topic at the end of a run, in the order in which the
/// topics were given. Nothing can change them any more.
pub struct RunResult {
    topics: Vec<TopicCounters>,
}

impl View for RunResult {
    type V = Seq<Tally>;

    closed spec fn view(&self) -> Seq<Tally> {
        tallies(self.topics@)
    }
}

impl RunResult {
    /// Every topic's counters are well formed.
    pub closed spec fn wf(&self) -> bool {
        all_wf(self.topics@)
    }

    /// In every topic's counters of a well-formed result, the total equals
    /// the sum of all per-day counts of the three stances.
    pub proof fn lemma_totals_are_sums(&self)
        requires
            self.wf(),
        ensures
            forall|i: int| 0 <= i < self@.len() ==> (#[trigger] self@[i]).balanced(),
    {
        assert forall|i: int| 0 <= i < self@.len() implies (#[trigger] self@[i]).balanced() by {
            self.topics[i].lemma_total_is_sum();
        }
    }

    /// The counters, one per topic and in the order of the topics.
    pub fn topics(&self) -> (topics: &Vec<TopicCounters>)
        ensures
            tallies(topics@) == self@,
            self.wf() ==> all_wf(topics@),
    {
        &self.topics
    }
}

/// Packages the counters of a finished run, keeping their order.
pub fn assemble(aggregators: Vec<TopicCounters>) -> (result: RunResult)
    ensures
        result@ == tallies(aggregators@),
        all_wf(aggregators@) ==> result.wf(),
{
    RunResult { topics: aggregators }
}

} // verus!
