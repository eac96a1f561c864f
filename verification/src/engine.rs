//! A run in progress: batches come in one at a time, and the first failed
//! batch ends the run.

use vstd::prelude::*;
use crate::batch::{process, tally_after};
use crate::counters::TopicCounters;
use crate::error::{RunError, RunErrorView};
use crate::laws::lemma_total_counts_references;
use crate::post::{post_views, Post, PostView};
use crate::result::{assemble, tallies, RunResult};
use crate::stance::CommunitySet;
use crate::tally::Tally;
use crate::topic::{topic_views, TopicDefinition, TopicView};

verus! {

/// What resolving one batch source gave: its posts, or the reason why there
/// are none.
pub type Batch = Result<Vec<Post>, RunError>;

/// What a batch holds.
pub type BatchView = Result<Seq<PostView>, RunErrorView>;

/// What one batch holds.
pub open spec fn batch_view(batch: Batch) -> BatchView {
    match batch {
        Ok(posts) => Ok(post_views(posts@)),
        Err(error) => Err(error@),
    }
}

/// What the outcome of a run holds.
pub open spec fn outcome_view(outcome: Result<RunResult, RunError>) -> Result<
    Seq<Tally>,
    RunErrorView,
> {
    match outcome {
        Ok(result) => Ok(result@),
        Err(error) => Err(error@),
    }
}

/// What an engine holds: the configuration of the run, the counters so far,
/// the number of posts counted so far, and the error that ended the run.
pub struct EngineView {
    pub topics: Seq<TopicView>,
    pub supporting: Set<Seq<char>>,
    pub opposing: Set<Seq<char>>,
    pub tallies: Seq<Tally>,
    pub posts_seen: nat,
    pub failure: Option<RunErrorView>,
}

impl EngineView {
    /// The state at the start of a run: every topic at zero, nothing failed.
    pub open spec fn started(
        topics: Seq<TopicView>,
        supporting: Set<Seq<char>>,
        opposing: Set<Seq<char>>,
    ) -> EngineView {
        EngineView {
            topics,
            supporting,
            opposing,
            tallies: Seq::new(topics.len(), |i: int| Tally::fresh(topics[i].name)),
            posts_seen: 0,
            failure: None,
        }
    }

    /// The state after one more batch. A run that has failed stays as it is;
    /// a failed batch ends the run; the posts of any other batch are counted.
    pub open spec fn fed(self, batch: BatchView) -> EngineView {
        match self.failure {
            Some(_) => self,
            None => match batch {
                Err(error) => EngineView { failure: Some(error), ..self },
                Ok(posts) => EngineView {
                    tallies: Seq::new(
                        self.tallies.len(),
                        |i: int|
                            tally_after(
                                self.tallies[i],
                                self.topics[i].keywords,
                                posts,
                                self.supporting,
                                self.opposing,
                            ),
                    ),
                    posts_seen: self.posts_seen + posts.len(),
                    ..self
                },
            },
        }
    }

    /// The state after a list of batches, fed in order.
    pub open spec fn fed_all(self, batches: Seq<BatchView>) -> EngineView
        decreases batches.len(),
    {
        if batches.len() == 0 {
            self
        } else {
            self.fed_all(batches.drop_last()).fed(batches.last())
        }
    }

    /// What the run yields when it ends in this state: the error alone, or
    /// the counters.
    pub open spec fn outcome(self) -> Result<Seq<Tally>, RunErrorView> {
        match self.failure {
            Some(error) => Err(error),
            None => Ok(self.tallies),
        }
    }
}

/// A run in progress. Batches are fed one at a time, in order.
pub struct Engine {
    topics: Vec<TopicDefinition>,
    supporting: CommunitySet,
    opposing: CommunitySet,
    aggregators: Vec<TopicCounters>,
    posts_seen: usize,
    failure: Option<RunError>,
}

impl View for Engine {
    type V = EngineView;

    closed spec fn view(&self) -> EngineView {
        EngineView {
            topics: topic_views(self.topics@),
            supporting: self.supporting@,
            opposing: self.opposing@,
            tallies: tallies(self.aggregators@),
            posts_seen: self.posts_seen as nat,
            failure: match self.failure {
                Some(error) => Some(error@),
                None => None,
            },
        }
    }
}

impl Engine {
    /// There is one well-formed set of counters per topic, and no total
    /// exceeds the number of posts counted.
    pub closed spec fn wf(&self) -> bool {
        &&& self.aggregators.len() == self.topics.len()
        &&& forall|i: int|
            0 <= i < self.aggregators.len() ==> {
                &&& (#[trigger] self.aggregators[i]).wf()
                &&& self.aggregators[i]@.total <= self.posts_seen
            }
    }

    /// Starts a run over the given topics and community sets, with every
    /// topic's counters at zero.
    pub fn new(
        topics: Vec<TopicDefinition>,
        supporting: CommunitySet,
        opposing: CommunitySet,
    ) -> (engine: Self)
        ensures
            engine.wf(),
            engine@ == EngineView::started(topic_views(topics@), supporting@, opposing@),
    {
        let mut aggregators: Vec<TopicCounters> = Vec::new();
        let mut i: usize = 0;
        while i < topics.len()
            invariant
                i <= topics.len(),
                aggregators.len() == i,
                forall|j: int|
                    0 <= j < i ==> {
                        &&& (#[trigger] aggregators[j]).wf()
                        &&& aggregators[j]@ == Tally::fresh(topics[j]@.name)
                    },
            decreases topics.len() - i,
        {
            aggregators.push(TopicCounters::new(topics[i].name()));
            i += 1;
        }
        let engine = Engine {
            topics,
            supporting,
            opposing,
            aggregators,
            posts_seen: 0,
            failure: None,
        };
        assert(engine@.tallies =~= EngineView::started(
            topic_views(topics@),
            supporting@,
            opposing@,
        ).tallies);
        engine
    }

    /// The number of posts counted so far.
    pub fn posts_seen(&self) -> (count: usize)
        ensures
            count == self@.posts_seen,
    {
        self.posts_seen
    }

    /// Whether a batch has failed.
    pub fn has_failed(&self) -> (failed: bool)
        ensures
            failed == (self@.failure is Some),
    {
        self.failure.is_some()
    }

    /// Takes the next batch. The posts of a batch that was read and decoded
    /// are counted; a failed batch ends the run, and whatever is fed after
    /// that is ignored. Returns whether the run is still going.
    pub fn feed(&mut self, batch: &Batch) -> (going: bool)
        requires
            old(self).wf(),
            old(self)@.failure is None ==> match batch {
                Ok(posts) => old(self)@.posts_seen + posts.len() <= usize::MAX,
                Err(_) => true,
            },
        ensures
            final(self).wf(),
            final(self)@ == old(self)@.fed(batch_view(*batch)),
            going == (final(self)@.failure is None),
    {
        if self.failure.is_some() {
            return false;
        }
        match batch {
            Err(error) => {
                self.failure = Some(error.duplicate());
                false
            },
            Ok(posts) => {
                process(
                    posts,
                    &self.topics,
                    &self.supporting,
                    &self.opposing,
                    &mut self.aggregators,
                );
                self.posts_seen = self.posts_seen + posts.len();
                proof {
                    assert(self@.tallies =~= old(self)@.fed(batch_view(*batch)).tallies);
                    assert forall|i: int| 0 <= i < self.aggregators.len() implies (
                    #[trigger] self.aggregators[i])@.total <= self.posts_seen by {
                        lemma_total_counts_references(
                            old(self).aggregators[i]@,
                            self.topics[i]@.keywords,
                            post_views(posts@),
                            self.supporting@,
                            self.opposing@,
                        );
                    }
                }
                true
            },
        }
    }

    /// Ends the run: the error of the failed batch and none of the counts,
    /// or the counters of every topic.
    pub fn finish(self) -> (outcome: Result<RunResult, RunError>)
        requires
            self.wf(),
        ensures
            outcome_view(outcome) == self@.outcome(),
            outcome matches Ok(result) ==> result.wf(),
    {
        match self.failure {
            Some(error) => Err(error),
            None => Ok(assemble(self.aggregators)),
        }
    }
}

} // verus!
